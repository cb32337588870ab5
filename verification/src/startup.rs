//! How the API server is put together: its encryption key, its access to Kubernetes and its
//! services.
use vstd::prelude::*;

use crate::text::{cat3, decimal, decimal_of, starts, starts_with, str_eq};

verus! {

/// The environment that the server runs in.
#[derive(Clone, Copy, Debug, PartialEq, Eq, Structural)]
pub enum Environment {
    /// Production.
    Prod,
    /// Staging.
    Staging,
    /// A developer's machine.
    Dev,
}

/// Returns the address that the server listens on.
pub fn bind_address(host: &str, port: u16) -> (r: String)
    ensures
        r@ == host@ + ":"@ + decimal(port as nat),
{
    let number = decimal_of(port as u128);
    cat3(host, ":", number.as_str())
}

/// Length of an encryption key, in bytes.
pub const ENCRYPTION_KEY_BYTES: usize = 32;

/// An AES-256-GCM key of the `aws_lc_rs` crate that draws its own nonces.
#[verifier::external_type_specification]
#[verifier::external_body]
pub struct ExRandomizedNonceKey(aws_lc_rs::aead::RandomizedNonceKey);

/// A key that configuration data is encrypted with.
#[derive(Debug)]
pub struct EncryptionKey {
    /// Identifier of the key.
    pub id: u32,
    /// The key.
    pub key: aws_lc_rs::aead::RandomizedNonceKey,
}

/// Why a configured key cannot be used.
#[derive(Debug)]
pub enum KeyError {
    /// The text is not base64; what the decoder says of it.
    Encoding(String),
    /// The bytes are no key.
    Key,
}

/// What the standard base64 engine of the `base64` crate decodes a text to, or what it says of it.
pub uninterp spec fn base64_decoded(text: Seq<char>) -> Result<Seq<u8>, Seq<char>>;

/// Decodes a text, by `decode` of `base64::prelude::BASE64_STANDARD`. Bytes or error are a function
/// of the text alone; the error is handed on by its text.
#[verifier::external_body]
fn decode_base64(text: &str) -> (r: Result<Vec<u8>, String>)
    ensures
        match r {
            Ok(bytes) => base64_decoded(text@) == Ok::<Seq<u8>, Seq<char>>(bytes@),
            Err(e) => base64_decoded(text@) == Err::<Seq<u8>, Seq<char>>(e@),
        },
{
    base64::Engine::decode(&base64::prelude::BASE64_STANDARD, text).map_err(|e| e.to_string())
}

/// The bytes that an AES-256-GCM key was made of.
pub uninterp spec fn aes_256_gcm_bytes(key: aws_lc_rs::aead::RandomizedNonceKey) -> Seq<u8>;

/// Makes a key, by `aws_lc_rs::aead::RandomizedNonceKey::new` for `AES_256_GCM`. A key is made of
/// 32 bytes and of no other number of bytes, and it is made of these bytes.
#[verifier::external_body]
fn make_aes_key(bytes: &[u8]) -> (r: Option<aws_lc_rs::aead::RandomizedNonceKey>)
    ensures
        r is Some <==> bytes@.len() == 32,
        r matches Some(key) ==> aes_256_gcm_bytes(key) == bytes@,
{
    aws_lc_rs::aead::RandomizedNonceKey::new(&aws_lc_rs::aead::AES_256_GCM, bytes).ok()
}

/// Makes the encryption key of its configured text.
pub fn encryption_key(id: u32, text: &str) -> (r: Result<EncryptionKey, KeyError>)
    ensures
        match base64_decoded(text@) {
            Err(e) => r matches Err(KeyError::Encoding(f)) && f@ == e,
            Ok(bytes) => if bytes.len() == ENCRYPTION_KEY_BYTES {
                r matches Ok(key) && key.id == id && aes_256_gcm_bytes(key.key) == bytes
            } else {
                r matches Err(KeyError::Key)
            },
        },
{
    match decode_base64(text) {
        Err(e) => Err(KeyError::Encoding(e)),
        Ok(bytes) => key_of(id, bytes.as_slice()),
    }
}

/// Makes an encryption key of its bytes. Bytes of another length than a key's make none.
pub fn key_of(id: u32, bytes: &[u8]) -> (r: Result<EncryptionKey, KeyError>)
    ensures
        if bytes@.len() == ENCRYPTION_KEY_BYTES {
            r matches Ok(key) && key.id == id && aes_256_gcm_bytes(key.key) == bytes@
        } else {
            r matches Err(KeyError::Key)
        },
{
    identified_key(id, make_aes_key(bytes))
}

/// Gives a key its identifier, if one was made.
pub fn identified_key(id: u32, made: Option<aws_lc_rs::aead::RandomizedNonceKey>) -> (r: Result<
    EncryptionKey,
    KeyError,
>)
    ensures
        match made {
            Some(key) => r == Ok::<EncryptionKey, KeyError>(EncryptionKey { id, key }),
            None => r == Err::<EncryptionKey, KeyError>(KeyError::Key),
        },
{
    match made {
        Some(key) => Ok(EncryptionKey { id, key }),
        None => Err(KeyError::Key),
    }
}

/// Where the Kubernetes client comes from.
#[derive(Clone, Copy, Debug, PartialEq, Eq, Structural)]
pub enum KubeAccess {
    /// What the environment offers by default.
    Default,
    /// The local cluster, if it answers.
    Orbstack,
    /// There is none.
    Unavailable,
}

/// Context, cluster and user of the local cluster.
pub const ORBSTACK: &'static str = "orbstack";

/// Says where the Kubernetes client comes from. The server runs without one where the environment
/// is not known.
pub fn kube_access(environment: Option<Environment>) -> (r: KubeAccess)
    ensures
        r == match environment {
            Some(Environment::Staging) | Some(Environment::Prod) => KubeAccess::Default,
            Some(Environment::Dev) => KubeAccess::Orbstack,
            None => KubeAccess::Unavailable,
        },
{
    match environment {
        Some(Environment::Staging) | Some(Environment::Prod) => KubeAccess::Default,
        Some(Environment::Dev) => KubeAccess::Orbstack,
        None => KubeAccess::Unavailable,
    }
}

/// What the server offers.
#[derive(Clone, Copy, Debug, PartialEq, Eq, Structural)]
pub enum Service {
    HealthCheck,
    Metrics,
    SwaggerUi,
    CreateTenant,
    CreateOrUpdateTenant,
    ReadTenant,
    UpdateTenant,
    DeleteTenant,
    ReadAllTenants,
    CreateImage,
    ReadImage,
    UpdateImage,
    DeleteImage,
    ReadAllImages,
    CreateSource,
    ValidateSource,
    ReadSource,
    UpdateSource,
    DeleteSource,
    ReadAllSources,
    ValidateDestination,
    CreateDestination,
    ReadDestination,
    UpdateDestination,
    DeleteDestination,
    ReadAllDestinations,
    ValidatePipeline,
    CreatePipeline,
    ReadPipeline,
    UpdatePipeline,
    DeletePipeline,
    ReadAllPipelines,
    StartPipeline,
    StopPipeline,
    StopAllPipelines,
    GetPipelineStatus,
    GetPipelineVersion,
    GetPipelineReplicationStatus,
    RollbackTables,
    UpdatePipelineVersion,
    ReadTableNames,
    CreatePublication,
    ReadPublication,
    UpdatePublication,
    DeletePublication,
    ReadAllPublications,
    AddTablesToPublication,
    DropTablesFromPublication,
    SetPublicationTables,
    CreateTenantAndSource,
    CreateDestinationAndPipeline,
    UpdateDestinationAndPipeline,
    DeleteDestinationAndPipeline,
}

/// Which requests reach a service.
#[derive(Clone, Copy, Debug, PartialEq, Eq, Structural)]
pub enum Scope {
    /// Any.
    Public,
    /// Those with a valid token, under the version's path.
    Authenticated,
    /// Those with a valid token, under the version's path; their data is kept out of error reports.
    Sensitive,
}

/// Which requests reach a service. Services that can carry credentials, connection settings, table
/// or publication metadata, replication settings or source data are sensitive.
pub open spec fn scope(service: Service) -> Scope {
    match service {
        Service::HealthCheck | Service::Metrics | Service::SwaggerUi => Scope::Public,
        Service::CreateTenant | Service::CreateOrUpdateTenant | Service::ReadTenant
        | Service::UpdateTenant | Service::DeleteTenant | Service::ReadAllTenants
        | Service::CreateImage | Service::ReadImage | Service::UpdateImage | Service::DeleteImage
        | Service::ReadAllImages => Scope::Authenticated,
        _ => Scope::Sensitive,
    }
}

/// Returns which requests reach a service.
pub fn scope_of(service: Service) -> (r: Scope)
    ensures
        r == scope(service),
{
    match service {
        Service::HealthCheck | Service::Metrics | Service::SwaggerUi => Scope::Public,
        Service::CreateTenant | Service::CreateOrUpdateTenant | Service::ReadTenant
        | Service::UpdateTenant | Service::DeleteTenant | Service::ReadAllTenants
        | Service::CreateImage | Service::ReadImage | Service::UpdateImage | Service::DeleteImage
        | Service::ReadAllImages => Scope::Authenticated,
        _ => Scope::Sensitive,
    }
}

/// All services in the order in which they are registered.
pub open spec fn services() -> Seq<Service> {
    seq![
        Service::HealthCheck,
        Service::Metrics,
        Service::SwaggerUi,
        Service::CreateTenant,
        Service::CreateOrUpdateTenant,
        Service::ReadTenant,
        Service::UpdateTenant,
        Service::DeleteTenant,
        Service::ReadAllTenants,
        Service::CreateImage,
        Service::ReadImage,
        Service::UpdateImage,
        Service::DeleteImage,
        Service::ReadAllImages,
        Service::CreateSource,
        Service::ValidateSource,
        Service::ReadSource,
        Service::UpdateSource,
        Service::DeleteSource,
        Service::ReadAllSources,
        Service::ValidateDestination,
        Service::CreateDestination,
        Service::ReadDestination,
        Service::UpdateDestination,
        Service::DeleteDestination,
        Service::ReadAllDestinations,
        Service::ValidatePipeline,
        Service::CreatePipeline,
        Service::ReadPipeline,
        Service::UpdatePipeline,
        Service::DeletePipeline,
        Service::ReadAllPipelines,
        Service::StartPipeline,
        Service::StopPipeline,
        Service::StopAllPipelines,
        Service::GetPipelineStatus,
        Service::GetPipelineVersion,
        Service::GetPipelineReplicationStatus,
        Service::RollbackTables,
        Service::UpdatePipelineVersion,
        Service::ReadTableNames,
        Service::CreatePublication,
        Service::ReadPublication,
        Service::UpdatePublication,
        Service::DeletePublication,
        Service::ReadAllPublications,
        Service::AddTablesToPublication,
        Service::DropTablesFromPublication,
        Service::SetPublicationTables,
        Service::CreateTenantAndSource,
        Service::CreateDestinationAndPipeline,
        Service::UpdateDestinationAndPipeline,
        Service::DeleteDestinationAndPipeline,
    ]
}

/// Returns all services in the order in which they are registered.
pub fn all_services() -> (r: Vec<Service>)
    ensures
        r@ == services(),
{
    let all = vec![
        Service::HealthCheck,
        Service::Metrics,
        Service::SwaggerUi,
        Service::CreateTenant,
        Service::CreateOrUpdateTenant,
        Service::ReadTenant,
        Service::UpdateTenant,
        Service::DeleteTenant,
        Service::ReadAllTenants,
        Service::CreateImage,
        Service::ReadImage,
        Service::UpdateImage,
        Service::DeleteImage,
        Service::ReadAllImages,
        Service::CreateSource,
        Service::ValidateSource,
        Service::ReadSource,
        Service::UpdateSource,
        Service::DeleteSource,
        Service::ReadAllSources,
        Service::ValidateDestination,
        Service::CreateDestination,
        Service::ReadDestination,
        Service::UpdateDestination,
        Service::DeleteDestination,
        Service::ReadAllDestinations,
        Service::ValidatePipeline,
        Service::CreatePipeline,
        Service::ReadPipeline,
        Service::UpdatePipeline,
        Service::DeletePipeline,
        Service::ReadAllPipelines,
        Service::StartPipeline,
        Service::StopPipeline,
        Service::StopAllPipelines,
        Service::GetPipelineStatus,
        Service::GetPipelineVersion,
        Service::GetPipelineReplicationStatus,
        Service::RollbackTables,
        Service::UpdatePipelineVersion,
        Service::ReadTableNames,
        Service::CreatePublication,
        Service::ReadPublication,
        Service::UpdatePublication,
        Service::DeletePublication,
        Service::ReadAllPublications,
        Service::AddTablesToPublication,
        Service::DropTablesFromPublication,
        Service::SetPublicationTables,
        Service::CreateTenantAndSource,
        Service::CreateDestinationAndPipeline,
        Service::UpdateDestinationAndPipeline,
        Service::DeleteDestinationAndPipeline,
    ];
    proof {
        assert(all@ =~= services());
    }
    all
}

/// Whether a service stands in the API's description.
pub open spec fn documented(service: Service) -> bool {
    match service {
        Service::SwaggerUi | Service::StartPipeline | Service::StopPipeline
        | Service::StopAllPipelines | Service::RollbackTables => false,
        _ => true,
    }
}

/// Returns whether a service stands in the API's description.
pub fn is_documented(service: Service) -> (r: bool)
    ensures
        r == documented(service),
{
    match service {
        Service::SwaggerUi | Service::StartPipeline | Service::StopPipeline
        | Service::StopAllPipelines | Service::RollbackTables => false,
        _ => true,
    }
}

/// What a request passes through before its service.
#[derive(Clone, Copy, Debug, PartialEq, Eq, Structural)]
pub enum Middleware {
    ErrorReports,
    Tracing,
    Metrics,
    Authentication,
    ErrorReportScrubbing,
}

/// What the requests of a scope pass through, in order.
pub open spec fn middleware(scope: Scope) -> Seq<Middleware> {
    let all = seq![Middleware::ErrorReports, Middleware::Tracing, Middleware::Metrics];
    match scope {
        Scope::Public => all,
        Scope::Authenticated => all.push(Middleware::Authentication),
        Scope::Sensitive => all.push(Middleware::Authentication).push(
            Middleware::ErrorReportScrubbing,
        ),
    }
}

/// Returns what the requests of a scope pass through, in order.
pub fn middleware_of(scope: Scope) -> (r: Vec<Middleware>)
    ensures
        r@ == middleware(scope),
{
    let mut all = vec![Middleware::ErrorReports, Middleware::Tracing, Middleware::Metrics];
    if scope != Scope::Public {
        all.push(Middleware::Authentication);
    }
    if scope == Scope::Sensitive {
        all.push(Middleware::ErrorReportScrubbing);
    }
    proof {
        assert(all@ =~= middleware(scope));
    }
    all
}

/// Every service is registered, and none twice.
pub proof fn law_every_service_is_registered_once(service: Service)
    ensures
        services().contains(service),
        forall|i: int, j: int|
            0 <= i < services().len() && 0 <= j < services().len() && services()[i] == service
                && services()[j] == service ==> i == j,
{
    let all = services();
    assert(exists|i: int| 0 <= i < all.len() && all[i] == service) by {
        match service {
            Service::HealthCheck => {
                assert(all[0] == service);
            },
            Service::Metrics => {
                assert(all[1] == service);
            },
            Service::SwaggerUi => {
                assert(all[2] == service);
            },
            Service::CreateTenant => {
                assert(all[3] == service);
            },
            Service::CreateOrUpdateTenant => {
                assert(all[4] == service);
            },
            Service::ReadTenant => {
                assert(all[5] == service);
            },
            Service::UpdateTenant => {
                assert(all[6] == service);
            },
            Service::DeleteTenant => {
                assert(all[7] == service);
            },
            Service::ReadAllTenants => {
                assert(all[8] == service);
            },
            Service::CreateImage => {
                assert(all[9] == service);
            },
            Service::ReadImage => {
                assert(all[10] == service);
            },
            Service::UpdateImage => {
                assert(all[11] == service);
            },
            Service::DeleteImage => {
                assert(all[12] == service);
            },
            Service::ReadAllImages => {
                assert(all[13] == service);
            },
            Service::CreateSource => {
                assert(all[14] == service);
            },
            Service::ValidateSource => {
                assert(all[15] == service);
            },
            Service::ReadSource => {
                assert(all[16] == service);
            },
            Service::UpdateSource => {
                assert(all[17] == service);
            },
            Service::DeleteSource => {
                assert(all[18] == service);
            },
            Service::ReadAllSources => {
                assert(all[19] == service);
            },
            Service::ValidateDestination => {
                assert(all[20] == service);
            },
            Service::CreateDestination => {
                assert(all[21] == service);
            },
            Service::ReadDestination => {
                assert(all[22] == service);
            },
            Service::UpdateDestination => {
                assert(all[23] == service);
            },
            Service::DeleteDestination => {
                assert(all[24] == service);
            },
            Service::ReadAllDestinations => {
                assert(all[25] == service);
            },
            Service::ValidatePipeline => {
                assert(all[26] == service);
            },
            Service::CreatePipeline => {
                assert(all[27] == service);
            },
            Service::ReadPipeline => {
                assert(all[28] == service);
            },
            Service::UpdatePipeline => {
                assert(all[29] == service);
            },
            Service::DeletePipeline => {
                assert(all[30] == service);
            },
            Service::ReadAllPipelines => {
                assert(all[31] == service);
            },
            Service::StartPipeline => {
                assert(all[32] == service);
            },
            Service::StopPipeline => {
                assert(all[33] == service);
            },
            Service::StopAllPipelines => {
                assert(all[34] == service);
            },
            Service::GetPipelineStatus => {
                assert(all[35] == service);
            },
            Service::GetPipelineVersion => {
                assert(all[36] == service);
            },
            Service::GetPipelineReplicationStatus => {
                assert(all[37] == service);
            },
            Service::RollbackTables => {
                assert(all[38] == service);
            },
            Service::UpdatePipelineVersion => {
                assert(all[39] == service);
            },
            Service::ReadTableNames => {
                assert(all[40] == service);
            },
            Service::CreatePublication => {
                assert(all[41] == service);
            },
            Service::ReadPublication => {
                assert(all[42] == service);
            },
            Service::UpdatePublication => {
                assert(all[43] == service);
            },
            Service::DeletePublication => {
                assert(all[44] == service);
            },
            Service::ReadAllPublications => {
                assert(all[45] == service);
            },
            Service::AddTablesToPublication => {
                assert(all[46] == service);
            },
            Service::DropTablesFromPublication => {
                assert(all[47] == service);
            },
            Service::SetPublicationTables => {
                assert(all[48] == service);
            },
            Service::CreateTenantAndSource => {
                assert(all[49] == service);
            },
            Service::CreateDestinationAndPipeline => {
                assert(all[50] == service);
            },
            Service::UpdateDestinationAndPipeline => {
                assert(all[51] == service);
            },
            Service::DeleteDestinationAndPipeline => {
                assert(all[52] == service);
            },
        }
    }
}

/// Whether a service manages tenants or images.
pub open spec fn manages_tenants_or_images(service: Service) -> bool {
    match service {
        Service::CreateTenant | Service::CreateOrUpdateTenant | Service::ReadTenant
        | Service::UpdateTenant | Service::DeleteTenant | Service::ReadAllTenants
        | Service::CreateImage | Service::ReadImage | Service::UpdateImage | Service::DeleteImage
        | Service::ReadAllImages => true,
        _ => false,
    }
}

/// Only health, metrics and the description are reachable without a token; of what a token is
/// needed for, only tenants and images may stand in error reports.
pub proof fn law_services_are_guarded(service: Service)
    ensures
        middleware(scope(service)).contains(Middleware::Authentication) <==> !(service
            == Service::HealthCheck || service == Service::Metrics || service
            == Service::SwaggerUi),
        middleware(scope(service)).contains(Middleware::ErrorReportScrubbing) <==> middleware(
            scope(service),
        ).contains(Middleware::Authentication) && !manages_tenants_or_images(service),
{
    let m = middleware(scope(service));
    if scope(service) != Scope::Public {
        assert(m[3] == Middleware::Authentication);
    }
    if scope(service) == Scope::Sensitive {
        assert(m[4] == Middleware::ErrorReportScrubbing);
    }
}

/// What becomes of a request for a service.
#[derive(Clone, Copy, Debug, PartialEq, Eq, Structural)]
pub enum Admission {
    /// Its service answers it.
    Admitted,
    /// No service sees it.
    Refused,
}

/// What becomes of a request for a service, given whether its bearer token was accepted.
pub open spec fn admission(service: Service, token_accepted: bool) -> Admission {
    if middleware(scope(service)).contains(Middleware::Authentication) && !token_accepted {
        Admission::Refused
    } else {
        Admission::Admitted
    }
}

/// Decides what becomes of a request for a service, given whether its bearer token was accepted. The
/// token counts for services that are not public, and for no others.
pub fn decide_access(service: Service, token_accepted: bool) -> (r: Admission)
    ensures
        r == admission(service, token_accepted),
        r == if scope(service) == Scope::Public || token_accepted {
            Admission::Admitted
        } else {
            Admission::Refused
        },
{
    proof {
        law_services_are_guarded(service);
    }
    if scope_of(service) == Scope::Public || token_accepted {
        Admission::Admitted
    } else {
        Admission::Refused
    }
}

/// Path that all services but the public ones stand under.
pub const VERSION_PATH: &'static str = "/v1";

/// Path of the API's description.
pub const DESCRIPTION_PATH: &'static str = "/api-docs/openapi.json";

/// Path that the pages which show the API's description stand under.
pub const SWAGGER_UI_PATH: &'static str = "/swagger-ui/";

/// Whether a path is that of the version or stands under it.
pub open spec fn under_version(path: Seq<char>) -> bool {
    path == VERSION_PATH@ || starts(path, VERSION_PATH@ + "/"@)
}

/// Whether requests with a path can be for a service.
pub open spec fn leads_to(path: Seq<char>, service: Service) -> bool {
    under_version(path) == (scope(service) != Scope::Public)
}

/// What becomes of a request with a path, whether or not a service stands there.
pub open spec fn path_admission(path: Seq<char>, token_accepted: bool) -> Admission {
    if under_version(path) && !token_accepted {
        Admission::Refused
    } else {
        Admission::Admitted
    }
}

/// Decides what becomes of a request with a path, given whether its bearer token was accepted.
pub fn decide_path_access(path: &str, token_accepted: bool) -> (r: Admission)
    ensures
        r == path_admission(path@, token_accepted),
{
    proof {
        reveal_strlit("/v1");
        reveal_strlit("/v1/");
        reveal_strlit("/");
        assert("/v1/"@ =~= VERSION_PATH@ + "/"@);
    }
    if !token_accepted && (str_eq(path, VERSION_PATH) || starts_with(path, "/v1/")) {
        Admission::Refused
    } else {
        Admission::Admitted
    }
}

/// Under the version's path a service answers only requests whose token was accepted. Health,
/// metrics, and the description with its pages are answered whatever the token.
pub proof fn law_access_needs_a_token_under_the_version(
    path: Seq<char>,
    service: Service,
    token_accepted: bool,
)
    requires
        leads_to(path, service),
    ensures
        admission(service, token_accepted) == path_admission(path, token_accepted),
        under_version(path) && !token_accepted ==> admission(service, token_accepted)
            == Admission::Refused,
        token_accepted ==> admission(service, token_accepted) == Admission::Admitted,
        service == Service::HealthCheck || service == Service::Metrics || service
            == Service::SwaggerUi ==> admission(service, token_accepted) == Admission::Admitted,
{
    law_services_are_guarded(service);
}

/// The description and its pages do not stand under the version's path, so that no token is needed
/// for them.
pub proof fn law_description_is_public(page: Seq<char>, token_accepted: bool)
    ensures
        path_admission(DESCRIPTION_PATH@, token_accepted) == Admission::Admitted,
        path_admission(SWAGGER_UI_PATH@ + page, token_accepted) == Admission::Admitted,
        leads_to(DESCRIPTION_PATH@, Service::SwaggerUi),
        leads_to(SWAGGER_UI_PATH@ + page, Service::SwaggerUi),
{
    reveal_strlit("/v1");
    reveal_strlit("/");
    reveal_strlit("/api-docs/openapi.json");
    reveal_strlit("/swagger-ui/");
    let version = VERSION_PATH@ + "/"@;
    assert(DESCRIPTION_PATH@[1] == 'a');
    assert((SWAGGER_UI_PATH@ + page)[1] == 's');
    assert(version[1] == 'v');
}

/// Shared data that services can ask for.
#[derive(Clone, Copy, Debug, PartialEq, Eq, Structural)]
pub enum AppData {
    MetricsHandle,
    Config,
    ConnectionPool,
    EncryptionKey,
    K8sClient,
    TrustedRootCerts,
    FeatureFlags,
}

/// The shared data, in the order in which it is registered.
pub open spec fn app_data(k8s: bool, certs: bool, flags: bool) -> Seq<AppData> {
    seq![
        AppData::MetricsHandle,
        AppData::Config,
        AppData::ConnectionPool,
        AppData::EncryptionKey,
    ] + (if k8s {
        seq![AppData::K8sClient]
    } else {
        Seq::empty()
    }) + (if certs {
        seq![AppData::TrustedRootCerts]
    } else {
        Seq::empty()
    }) + (if flags {
        seq![AppData::FeatureFlags]
    } else {
        Seq::empty()
    })
}

/// Returns the shared data, in the order in which it is registered. Kubernetes client, trusted
/// certificates and feature flags may be missing.
pub fn registered_data(k8s: bool, certs: bool, flags: bool) -> (r: Vec<AppData>)
    ensures
        r@ == app_data(k8s, certs, flags),
{
    let mut data = vec![
        AppData::MetricsHandle,
        AppData::Config,
        AppData::ConnectionPool,
        AppData::EncryptionKey,
    ];
    if k8s {
        data.push(AppData::K8sClient);
    }
    if certs {
        data.push(AppData::TrustedRootCerts);
    }
    if flags {
        data.push(AppData::FeatureFlags);
    }
    proof {
        assert(data@ =~= app_data(k8s, certs, flags));
    }
    data
}

/// Kubernetes client, trusted certificates and feature flags may each be missing: what else is
/// shared is registered all the same.
pub proof fn law_missing_data_leaves_the_rest(k8s: bool, certs: bool, flags: bool, data: AppData)
    ensures
        app_data(k8s, certs, flags).contains(data) <==> match data {
            AppData::K8sClient => k8s,
            AppData::TrustedRootCerts => certs,
            AppData::FeatureFlags => flags,
            _ => true,
        },
{
    let all = app_data(k8s, certs, flags);
    let k = if k8s {
        1int
    } else {
        0
    };
    let c = if certs {
        1int
    } else {
        0
    };
    match data {
        AppData::MetricsHandle => {
            assert(all[0] == data);
        },
        AppData::Config => {
            assert(all[1] == data);
        },
        AppData::ConnectionPool => {
            assert(all[2] == data);
        },
        AppData::EncryptionKey => {
            assert(all[3] == data);
        },
        AppData::K8sClient => {
            assert(k8s ==> all[4] == data);
        },
        AppData::TrustedRootCerts => {
            assert(certs ==> all[4 + k] == data);
        },
        AppData::FeatureFlags => {
            assert(flags ==> all[4 + k + c] == data);
        },
    }
}

/// The server listens at its host and port.
pub proof fn law_addresses_have_host_and_port(host: &str, port: u16, r: String)
    requires
        call_ensures(bind_address, (host, port), r),
    ensures
        r@ == host@ + ":"@ + decimal(port as nat),
{
}

/// Bytes make a key if and only if there are 32 of them; the key has them, and its identifier.
pub proof fn law_keys_have_32_bytes(id: u32, bytes: &[u8], r: Result<EncryptionKey, KeyError>)
    requires
        call_ensures(key_of, (id, bytes), r),
    ensures
        r is Ok <==> bytes@.len() == 32,
        r matches Ok(key) ==> key.id == id && aes_256_gcm_bytes(key.key) == bytes@,
        r matches Err(e) ==> e is Key,
{
}

/// Deployed servers reach the cluster that they run in; a developer's server reaches Orbstack.
pub proof fn law_clusters_by_environment(environment: Option<Environment>, r: KubeAccess)
    requires
        call_ensures(kube_access, (environment,), r),
    ensures
        environment == Some(Environment::Prod) ==> r == KubeAccess::Default,
        environment == Some(Environment::Staging) ==> r == KubeAccess::Default,
        environment == Some(Environment::Dev) ==> r == KubeAccess::Orbstack,
        environment is None ==> r == KubeAccess::Unavailable,
{
}

/// Three services are open to all; those on tenants and images need a token; all others need one and
/// keep what they handle out of error reports.
pub proof fn law_services_have_these_scopes(service: Service)
    ensures
        scope(service) == Scope::Public <==> service == Service::HealthCheck || service
            == Service::Metrics || service == Service::SwaggerUi,
        scope(service) == Scope::Authenticated <==> service == Service::CreateTenant || service
            == Service::CreateOrUpdateTenant || service == Service::ReadTenant || service
            == Service::UpdateTenant || service == Service::DeleteTenant || service
            == Service::ReadAllTenants || service == Service::CreateImage || service
            == Service::ReadImage || service == Service::UpdateImage || service
            == Service::DeleteImage || service == Service::ReadAllImages,
        documented(service) <==> !(service == Service::SwaggerUi || service
            == Service::StartPipeline || service == Service::StopPipeline || service
            == Service::StopAllPipelines || service == Service::RollbackTables),
{
}

/// Requests pass error reports, tracing and metrics first, then authentication, then scrubbing.
pub proof fn law_middleware_comes_in_this_order()
    ensures
        middleware(Scope::Public) == seq![
            Middleware::ErrorReports,
            Middleware::Tracing,
            Middleware::Metrics,
        ],
        middleware(Scope::Authenticated) == seq![
            Middleware::ErrorReports,
            Middleware::Tracing,
            Middleware::Metrics,
            Middleware::Authentication,
        ],
        middleware(Scope::Sensitive) == seq![
            Middleware::ErrorReports,
            Middleware::Tracing,
            Middleware::Metrics,
            Middleware::Authentication,
            Middleware::ErrorReportScrubbing,
        ],
{
}

/// A request is refused if and only if its service needs a token and none was accepted.
pub proof fn law_requests_without_a_token_are_refused(
    service: Service,
    token_accepted: bool,
    r: Admission,
)
    requires
        call_ensures(decide_access, (service, token_accepted), r),
    ensures
        r == Admission::Refused <==> !token_accepted && service != Service::HealthCheck && service
            != Service::Metrics && service != Service::SwaggerUi,
        r == Admission::Admitted || r == Admission::Refused,
{
}

/// A made key is kept under its identifier; a key that could not be made is refused.
pub proof fn law_keys_are_kept_under_their_identifier(
    id: u32,
    made: Option<aws_lc_rs::aead::RandomizedNonceKey>,
    r: Result<EncryptionKey, KeyError>,
)
    requires
        call_ensures(identified_key, (id, made), r),
    ensures
        made matches Some(key) ==> (r matches Ok(k) && k.id == id && k.key == key),
        made is None ==> (r matches Err(e) && e is Key),
{
}

/// A key's text is decoded first; only 32 bytes make a key.
pub proof fn law_key_texts_are_decoded(id: u32, text: &str, r: Result<EncryptionKey, KeyError>)
    requires
        call_ensures(encryption_key, (id, text), r),
    ensures
        r is Ok <==> base64_decoded(text@) is Ok && base64_decoded(text@)->Ok_0.len() == 32,
        r matches Ok(key) ==> key.id == id && aes_256_gcm_bytes(key.key) == base64_decoded(
            text@,
        )->Ok_0,
        base64_decoded(text@) matches Err(reason) ==> (r matches Err(KeyError::Encoding(e)) && e@
            == reason),
        base64_decoded(text@) is Ok && r is Err ==> r->Err_0 is Key,
{
}

} // verus!
