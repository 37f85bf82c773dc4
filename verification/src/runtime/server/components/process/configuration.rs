//! What a process is given when it starts.
use vstd::prelude::*;

use crate::outside;
use crate::outside::RelocationFault;
use crate::runtime::server::components::lifecycle::Grants;
use crate::runtime::server::components::process::model::Start;
use crate::runtime::server::components::process::supervision;
use crate::runtime::server::components::services::{
    ContextText, InvocationScope, RequestContext,
};
use crate::steps;
use crate::steps::Outcome;
use crate::text;

verus! {

/// The version of the interface between a process and the host.
pub const PROCESS_ABI: u32 = 2;

/// The mode of a process's executable.
pub const EXECUTABLE_MODE: u32 = 0o555;

/// The mode of a process's configuration.
pub const CONFIGURATION_MODE: u32 = 0o444;

/// The mode of the sockets that a process connects to.
pub const SOCKET_MODE: u32 = 0o666;

/// The mode of the directory that holds all processes.
pub const ROOT_MODE: u32 = 0o700;

/// How many calls of a process are served at a time.
pub const MAX_CALLS: usize = 8;

/// How many connections of a process to its database are served at a time.
pub const MAX_DATABASE_CLIENTS: usize = 6;

/// What a bundle says of its process.
#[derive(Debug)]
pub struct ProcessManifest {
    pub endpoints: Vec<String>,
    pub services: Vec<String>,
}

/// What a process is told of its surroundings.
#[derive(Debug)]
pub struct Configuration {
    pub abi_version: u32,
    pub tenant_id: String,
    pub database_url: Option<String>,
    pub encryption_key: Option<String>,
    pub ingress_token: String,
    pub broker_socket: String,
    pub endpoints: Vec<String>,
    pub services: Vec<String>,
}

/// Why a process cannot be given what it asks for.
#[derive(Clone, Copy, Debug, PartialEq, Eq, Structural)]
pub enum ConfigureFault {
    NotAProcess,
    CapabilityForbidden,
    EndpointForbidden,
}

/// What is to be prepared for a process.
#[derive(Clone, Copy, Debug, PartialEq, Eq, Structural)]
pub struct ConfigurePlan {
    pub encryption_key: bool,
    pub database: bool,
}

/// A credential: 32 random bytes in Base64, or the one refusal where the system has no random
/// source.
pub fn random() -> (credential: Result<String, String>)
    ensures
        match credential {
            Ok(credential) => {
                &&& credential@.len() == 44
                &&& exists|bytes: Seq<u8>| #[trigger]
                    outside::base64_encoded(bytes) == credential@ && bytes.len() == 32
                        && outside::base64_decoded(credential@) == Ok::<Seq<u8>, Seq<char>>(bytes)
            },
            Err(told) => told@ == "生成 process 凭据失败"@,
        },
{
    drawn_credential(outside::random_key())
}

/// What a draw of random bytes gives: the bytes in Base64, or the refusal, whatever is told of a
/// draw that failed.
pub fn drawn_credential(drawn: Result<Vec<u8>, String>) -> (credential: Result<String, String>)
    requires
        drawn matches Ok(bytes) ==> bytes@.len() == 32,
    ensures
        match drawn {
            Ok(bytes) => {
                &&& credential is Ok
                &&& credential->Ok_0@ == outside::base64_encoded(bytes@)
                &&& credential->Ok_0@.len() == 44
                &&& outside::base64_decoded(credential->Ok_0@) matches Ok(decoded)
                &&& decoded == bytes@
            },
            Err(_) => credential is Err && credential->Err_0@ == "生成 process 凭据失败"@,
        },
{
    match drawn {
        Ok(bytes) => Ok(outside::base64_encode(bytes.as_slice())),
        Err(_) => Err("生成 process 凭据失败".to_owned()),
    }
}

/// Whether every endpoint is one of those that the host approves.
pub open spec fn approved_endpoints(endpoints: Seq<String>, approved: Seq<char>) -> bool {
    forall|i: int|
        0 <= i < endpoints.len() ==> supervision::listed(approved, (#[trigger] endpoints[i])@)
}

/// Why a process cannot be given what it asks for.
pub open spec fn configure_fault(
    process: Option<ProcessManifest>,
    grants: Grants,
    approved: Seq<char>,
) -> Option<ConfigureFault> {
    if process is None {
        Some(ConfigureFault::NotAProcess)
    } else if grants.storage || grants.management || grants.identity_provider {
        Some(ConfigureFault::CapabilityForbidden)
    } else if !approved_endpoints(process->0.endpoints@, approved) {
        Some(ConfigureFault::EndpointForbidden)
    } else {
        None
    }
}

/// Decides what is to be prepared for a process: a key where it encrypts, a database where it
/// stores. A process gets no other storage, does not manage the host, vouches for no identities
/// and reaches only the models that the host approves.
#[verifier::loop_isolation(false)]
pub fn configure(process: &Option<ProcessManifest>, grants: Grants, approved: &str) -> (outcome:
    Result<ConfigurePlan, ConfigureFault>)
    ensures
        match outcome {
            Ok(plan) => configure_fault(*process, grants, approved@) is None && plan
                == (ConfigurePlan {
                encryption_key: grants.cryptography,
                database: grants.database,
            }),
            Err(fault) => configure_fault(*process, grants, approved@) == Some(fault),
        },
{
    let declared = match process {
        Some(declared) => declared,
        None => return Err(ConfigureFault::NotAProcess),
    };
    if grants.storage || grants.management || grants.identity_provider {
        return Err(ConfigureFault::CapabilityForbidden);
    }
    let mut i: usize = 0;
    while i < declared.endpoints.len()
        invariant
            i <= declared.endpoints@.len(),
            forall|k: int|
                0 <= k < i ==> supervision::listed(
                    approved@,
                    (#[trigger] declared.endpoints@[k])@,
                ),
        decreases declared.endpoints@.len() - i,
    {
        if !supervision::is_listed(approved, declared.endpoints[i].as_str()) {
            assert(!supervision::listed(approved@, declared.endpoints@[i as int]@));
            return Err(ConfigureFault::EndpointForbidden);
        }
        i += 1;
    }
    Ok(ConfigurePlan { encryption_key: grants.cryptography, database: grants.database })
}

/// The directories of an instance and their modes: only that of its sockets is open to all.
pub fn directories() -> (directories: Vec<(String, u32)>)
    ensures
        directories@.len() == 5,
        directories@[0].0@ == "package"@ && directories@[0].1 == 0o755,
        directories@[1].0@ == "grant"@ && directories@[1].1 == 0o755,
        directories@[2].0@ == "broker"@ && directories@[2].1 == 0o755,
        directories@[3].0@ == "database"@ && directories@[3].1 == 0o755,
        directories@[4].0@ == "runtime"@ && directories@[4].1 == 0o777,
{
    let mut directories: Vec<(String, u32)> = Vec::new();
    directories.push(("package".to_owned(), 0o755));
    directories.push(("grant".to_owned(), 0o755));
    directories.push(("broker".to_owned(), 0o755));
    directories.push(("database".to_owned(), 0o755));
    directories.push(("runtime".to_owned(), 0o777));
    directories
}

/// What a process is told of a secret: nothing unless it was granted.
pub open spec fn told_secret(granted: bool, secret: Option<Seq<char>>) -> Option<Seq<char>> {
    if granted {
        secret
    } else {
        None
    }
}

/// What a process is told of its surroundings.
pub fn configuration(
    start: &Start,
    process: &ProcessManifest,
    plan: ConfigurePlan,
    database_url: Option<String>,
    encryption_key: Option<String>,
    ingress_token: String,
) -> (told: Configuration)
    ensures
        told.abi_version == PROCESS_ABI,
        told.tenant_id@ == start.tenant@,
        text::optional(told.database_url) == told_secret(
            plan.database,
            text::optional(database_url),
        ),
        text::optional(told.encryption_key) == told_secret(
            plan.encryption_key,
            text::optional(encryption_key),
        ),
        told.ingress_token == ingress_token,
        told.broker_socket@ == "/broker/gateway.sock"@,
        told.endpoints@ == process.endpoints@,
        told.services@ == process.services@,
{
    Configuration {
        abi_version: PROCESS_ABI,
        tenant_id: start.tenant.clone(),
        database_url: if plan.database {
            database_url
        } else {
            None
        },
        encryption_key: if plan.encryption_key {
            encryption_key
        } else {
            None
        },
        ingress_token,
        broker_socket: "/broker/gateway.sock".to_owned(),
        endpoints: text::copied(&process.endpoints),
        services: text::copied(&process.services),
    }
}

// The database of a process

/// The host under which a process finds its database.
pub const DATABASE_HOST: &'static str = "localhost";

/// The port under which a process finds its database.
pub const DATABASE_PORT: u16 = 5432;

/// The directory in which a process finds the socket of its database.
pub const DATABASE_DIRECTORY: &'static str = "/database";

/// The address under which a process finds its database: that of the host's own connection, by way
/// of the socket in the process's directory.
pub fn database_url(connection: &str) -> (outcome: Result<String, RelocationFault>)
    requires
        text::byte_len(connection@) <= outside::MAX_URL_BYTES,
    ensures
        match outcome {
            Ok(url) => outside::url_relocated(
                connection@,
                DATABASE_HOST@,
                DATABASE_PORT,
                "host"@,
                DATABASE_DIRECTORY@,
            ) == Ok::<Seq<char>, RelocationFault>(url@),
            Err(fault) => outside::url_relocated(
                connection@,
                DATABASE_HOST@,
                DATABASE_PORT,
                "host"@,
                DATABASE_DIRECTORY@,
            ) == Err::<Seq<char>, RelocationFault>(fault),
        },
{
    proof {
        reveal_strlit("localhost");
        vstd::utf8::is_ascii_chars_encode_utf8("localhost"@);
        reveal_strlit("host");
        vstd::utf8::is_ascii_chars_encode_utf8("host"@);
        reveal_strlit("/database");
        vstd::utf8::is_ascii_chars_encode_utf8("/database"@);
    }
    outside::relocate_url(connection, DATABASE_HOST, DATABASE_PORT, "host", DATABASE_DIRECTORY)
}

/// What is told where a process's database has no address.
pub fn database_refusal(fault: RelocationFault) -> (told: String)
    ensures
        told@ == match fault {
            RelocationFault::Address => "数据库地址无效"@,
            RelocationFault::Host => "数据库主机无效"@,
            RelocationFault::Port => "数据库端口无效"@,
        },
{
    match fault {
        RelocationFault::Address => "数据库地址无效".to_owned(),
        RelocationFault::Host => "数据库主机无效".to_owned(),
        RelocationFault::Port => "数据库端口无效".to_owned(),
    }
}

/// The name of the socket of a database that listens on a port.
pub fn database_socket(port: u16) -> (name: String)
    ensures
        name@ == ".s.PGSQL."@ + text::decimal(port as nat),
{
    let number = text::decimal_text(port as u64);
    ".s.PGSQL.".to_owned().concat(number.as_str())
}

/// Whether another connection to a process's database is served.
pub fn serves_client(clients: usize) -> (yes: bool)
    ensures
        yes == (clients < MAX_DATABASE_CLIENTS),
{
    clients < MAX_DATABASE_CLIENTS
}

/// The scope in which a process's key is sealed: the component and the tenant, whichever version
/// runs.
pub open spec fn sealed_scope(source: u128, tenant: Seq<char>) -> (
    Seq<char>,
    Seq<char>,
    ContextText,
) {
    (
        outside::hyphenated(source),
        ""@,
        ContextText {
            tenant_id: Some(tenant),
            user_id: None,
            session_id: None,
            request_id: ""@,
        },
    )
}

/// A component keeps its key in a tenant under every version, and no other component and no other
/// tenant opens it: the scope of the key is the same exactly for the same component and tenant.
pub proof fn lemma_key_belongs_to_component_and_tenant(first: Start, second: Start)
    ensures
        sealed_scope(first.source, first.tenant@) == sealed_scope(second.source, second.tenant@)
            <==> first.source == second.source && first.tenant@ == second.tenant@,
{
    let a = sealed_scope(first.source, first.tenant@);
    let b = sealed_scope(second.source, second.tenant@);
    if a == b {
        assert(a.2.tenant_id == b.2.tenant_id);
        outside::lemma_hyphenated_injective(first.source, second.source);
    }
}

/// The sealed key of a component in a tenant, as its row holds it. The statements that read and
/// write the table must agree with what is said of these rows here.
#[derive(Debug)]
pub struct KeyRow {
    pub source: u128,
    pub tenant: String,
    pub ciphertext: Vec<u8>,
}

/// The owners of the keys, in order: each a component and a tenant.
pub open spec fn key_owners(rows: Seq<KeyRow>) -> Seq<(u128, Seq<char>)> {
    rows.map_values(|row: KeyRow| (row.source, row.tenant@))
}

/// The sealed key of a component in a tenant.
pub open spec fn sealed_key(rows: Seq<KeyRow>, source: u128, tenant: Seq<char>) -> Option<Seq<u8>> {
    let at = text::first_index(key_owners(rows), (source, tenant));
    if at < rows.len() {
        Some(rows[at].ciphertext@)
    } else {
        None
    }
}

/// Whether a sealed key is the one that a process is to be given, and what the rows are then: the
/// key that its component has in its tenant, or a new one, which is kept, where there was none.
pub open spec fn keeps_key(
    rows: Seq<KeyRow>,
    start: Start,
    sealed: Seq<u8>,
    ciphertext: Seq<u8>,
    after: Seq<KeyRow>,
) -> bool {
    match sealed_key(rows, start.source, start.tenant@) {
        Some(known) => ciphertext == known && after == rows,
        None => {
            &&& ciphertext == sealed
            &&& after.len() == rows.len() + 1
            &&& after.drop_last() == rows
            &&& after.last().source == start.source
            &&& after.last().tenant@ == start.tenant@
            &&& after.last().ciphertext@ == sealed
        },
    }
}

/// The sealed key that a process is to be given. A new one is kept only where there was none.
pub fn keep_key(rows: &mut Vec<KeyRow>, start: &Start, sealed: Vec<u8>) -> (ciphertext: Vec<u8>)
    ensures
        keeps_key(old(rows)@, *start, sealed@, ciphertext@, final(rows)@),
{
    let ghost owners = key_owners(rows@);
    let mut i: usize = 0;
    while i < rows.len()
        invariant
            i <= rows@.len(),
            rows@ == old(rows)@,
            owners == key_owners(rows@),
            forall|k: int| 0 <= k < i ==> owners[k] != (start.source, start.tenant@),
        decreases rows@.len() - i,
    {
        if rows[i].source == start.source && text::same(
            rows[i].tenant.as_str(),
            start.tenant.as_str(),
        ) {
            proof {
                text::lemma_first_index_is(owners, (start.source, start.tenant@), i as int);
            }
            let known = &rows[i].ciphertext;
            let copy = vstd::slice::slice_to_vec(known.as_slice());
            return copy;
        }
        i += 1;
    }
    proof {
        text::lemma_first_index_is(owners, (start.source, start.tenant@), i as int);
    }
    let copy = vstd::slice::slice_to_vec(sealed.as_slice());
    let ghost before = rows@;
    rows.push(KeyRow { source: start.source, tenant: start.tenant.clone(), ciphertext: sealed });
    assert(rows@.drop_last() =~= before);
    copy
}

/// Later calls for the same component and tenant give the same sealed key, whichever version runs
/// and whatever new key was drawn, and change no row. The key is opened in the scope in which it
/// was sealed.
pub proof fn lemma_key_stays_the_same(
    rows: Seq<KeyRow>,
    first: Start,
    drawn: Seq<u8>,
    given: Seq<u8>,
    after: Seq<KeyRow>,
    second: Start,
    redrawn: Seq<u8>,
    given_again: Seq<u8>,
    end: Seq<KeyRow>,
)
    requires
        first.source == second.source,
        first.tenant@ == second.tenant@,
        keeps_key(rows, first, drawn, given, after),
        keeps_key(after, second, redrawn, given_again, end),
    ensures
        given_again == given,
        end == after,
        sealed_scope(first.source, first.tenant@) == sealed_scope(second.source, second.tenant@),
{
    let owner = (first.source, first.tenant@);
    if sealed_key(rows, first.source, first.tenant@) is None {
        text::lemma_first_index(key_owners(rows), owner);
        assert forall|k: int| 0 <= k < rows.len() implies key_owners(after)[k] != owner by {
            assert(after[k] == after.drop_last()[k]);
            assert(key_owners(after)[k] == key_owners(rows)[k]);
            assert(key_owners(rows).contains(key_owners(rows)[k]));
        }
        text::lemma_first_index_is(key_owners(after), owner, rows.len() as int);
    }
}

/// The scope in which a process's key is sealed.
pub fn key_scope(start: &Start) -> (scope: InvocationScope)
    ensures
        (scope.source_id@, scope.revision@, scope.context@) == sealed_scope(
            start.source,
            start.tenant@,
        ),
{
    InvocationScope {
        source_id: outside::uuid_text(start.source),
        revision: "".to_owned(),
        context: RequestContext {
            tenant_id: Some(start.tenant.clone()),
            user_id: None,
            session_id: None,
            request_id: "".to_owned(),
        },
    }
}

// Preparing a process

/// What is known so far while a process is being given what it needs.
#[derive(Debug)]
pub struct ConfigureProgress {
    pub plan: ConfigurePlan,
    pub directories: Outcome<()>,
    pub bundle: Outcome<()>,
    pub executable: Outcome<()>,
    /// That the process's key was made or found.
    pub key: Outcome<()>,
    /// That the process's database is there and can be reached.
    pub database: Outcome<()>,
    /// That the process's way to its database is open.
    pub database_served: Outcome<()>,
    /// That the process's ticket was made.
    pub ticket: Outcome<()>,
    pub configuration: Outcome<()>,
    /// That the process's way to the host is open.
    pub broker_served: Outcome<()>,
}

/// What is to be done next while a process is being given what it needs.
#[derive(Debug)]
pub enum ConfigureStep {
    CreateDirectories,
    WriteBundle,
    WriteExecutable,
    PrepareKey,
    PrepareDatabase,
    ServeDatabase,
    MakeTicket,
    WriteConfiguration,
    ServeBroker,
    Ready,
    Fail(String),
}

impl ConfigureProgress {
    pub fn start(plan: ConfigurePlan) -> (progress: ConfigureProgress)
        ensures
            progress.plan == plan,
            progress.directories is None,
            progress.bundle is None,
            progress.executable is None,
            progress.key is None,
            progress.database is None,
            progress.database_served is None,
            progress.ticket is None,
            progress.configuration is None,
            progress.broker_served is None,
    {
        ConfigureProgress {
            plan,
            directories: None,
            bundle: None,
            executable: None,
            key: None,
            database: None,
            database_served: None,
            ticket: None,
            configuration: None,
            broker_served: None,
        }
    }

    /// The files of the process are in place.
    pub open spec fn unpacked(&self) -> bool {
        steps::done(self.directories) && steps::done(self.bundle) && steps::done(self.executable)
    }

    /// The process has its key, where it encrypts.
    pub open spec fn keyed(&self) -> bool {
        self.unpacked() && (self.plan.encryption_key ==> steps::done(self.key))
    }

    /// The process reaches its database, where it stores.
    pub open spec fn connected(&self) -> bool {
        self.keyed() && (self.plan.database ==> steps::done(self.database) && steps::done(
            self.database_served,
        ))
    }

    /// The process was told of its surroundings.
    pub open spec fn told(&self) -> bool {
        self.connected() && steps::done(self.ticket) && steps::done(self.configuration)
    }

    /// What is told where the process does not get what it needs.
    pub open spec fn failed(&self) -> Option<Seq<char>> {
        if !steps::done(self.directories) {
            steps::failure(self.directories)
        } else if !steps::done(self.bundle) {
            steps::failure(self.bundle)
        } else if !steps::done(self.executable) {
            steps::failure(self.executable)
        } else if !self.keyed() {
            steps::failure(self.key)
        } else if self.plan.database && !steps::done(self.database) {
            steps::failure(self.database)
        } else if !self.connected() {
            steps::failure(self.database_served)
        } else if !steps::done(self.ticket) {
            steps::failure(self.ticket)
        } else if !steps::done(self.configuration) {
            steps::failure(self.configuration)
        } else {
            steps::failure(self.broker_served)
        }
    }

    /// Whether a step is the one to be taken next.
    pub open spec fn asks(&self, step: ConfigureStep) -> bool {
        &&& step is CreateDirectories <==> self.directories is None
        &&& step is WriteBundle <==> steps::done(self.directories) && self.bundle is None
        &&& step is WriteExecutable <==> steps::done(self.directories) && steps::done(self.bundle)
            && self.executable is None
        &&& step is PrepareKey <==> self.unpacked() && self.plan.encryption_key
            && self.key is None
        &&& step is PrepareDatabase <==> self.keyed() && self.plan.database
            && self.database is None
        &&& step is ServeDatabase <==> self.keyed() && self.plan.database && steps::done(
            self.database,
        ) && self.database_served is None
        &&& step is MakeTicket <==> self.connected() && self.ticket is None
        &&& step is WriteConfiguration <==> self.connected() && steps::done(self.ticket)
            && self.configuration is None
        &&& step is ServeBroker <==> self.told() && self.broker_served is None
        &&& step is Ready <==> self.told() && steps::done(self.broker_served)
        &&& step is Fail <==> self.failed() is Some
        &&& step matches ConfigureStep::Fail(told) ==> self.failed() == Some(told@)
    }

    /// What is to be done next: the files, the key, the database, and then what tells the process
    /// of them.
    pub fn next(&self) -> (step: ConfigureStep)
        ensures
            self.asks(step),
    {
        match &self.directories {
            None => return ConfigureStep::CreateDirectories,
            Some(Err(told)) => return ConfigureStep::Fail(told.clone()),
            Some(Ok(())) => {},
        }
        match &self.bundle {
            None => return ConfigureStep::WriteBundle,
            Some(Err(told)) => return ConfigureStep::Fail(told.clone()),
            Some(Ok(())) => {},
        }
        match &self.executable {
            None => return ConfigureStep::WriteExecutable,
            Some(Err(told)) => return ConfigureStep::Fail(told.clone()),
            Some(Ok(())) => {},
        }
        if self.plan.encryption_key {
            match &self.key {
                None => return ConfigureStep::PrepareKey,
                Some(Err(told)) => return ConfigureStep::Fail(told.clone()),
                Some(Ok(())) => {},
            }
        }
        if self.plan.database {
            match &self.database {
                None => return ConfigureStep::PrepareDatabase,
                Some(Err(told)) => return ConfigureStep::Fail(told.clone()),
                Some(Ok(())) => {},
            }
            match &self.database_served {
                None => return ConfigureStep::ServeDatabase,
                Some(Err(told)) => return ConfigureStep::Fail(told.clone()),
                Some(Ok(())) => {},
            }
        }
        match &self.ticket {
            None => return ConfigureStep::MakeTicket,
            Some(Err(told)) => return ConfigureStep::Fail(told.clone()),
            Some(Ok(())) => {},
        }
        match &self.configuration {
            None => return ConfigureStep::WriteConfiguration,
            Some(Err(told)) => return ConfigureStep::Fail(told.clone()),
            Some(Ok(())) => {},
        }
        match &self.broker_served {
            None => ConfigureStep::ServeBroker,
            Some(Err(told)) => ConfigureStep::Fail(told.clone()),
            Some(Ok(())) => ConfigureStep::Ready,
        }
    }
}

/// A process is told of a key and of a database only once it has them.
pub proof fn lemma_told_process_has_what_it_needs(progress: ConfigureProgress)
    requires
        progress.told(),
    ensures
        progress.plan.encryption_key ==> steps::done(progress.key),
        progress.plan.database ==> steps::done(progress.database) && steps::done(
            progress.database_served,
        ),
{
}

/// When a process is told of its surroundings, the address of its database and its key are there
/// exactly where they were granted.
pub proof fn lemma_secrets_exactly_where_granted(
    process: Option<ProcessManifest>,
    grants: Grants,
    approved: Seq<char>,
    progress: ConfigureProgress,
    database_url: Option<Seq<char>>,
    encryption_key: Option<Seq<char>>,
)
    requires
        configure_fault(process, grants, approved) is None,
        progress.plan == (ConfigurePlan {
            encryption_key: grants.cryptography,
            database: grants.database,
        }),
        progress.connected(),
        steps::done(progress.database) ==> database_url is Some,
        steps::done(progress.key) ==> encryption_key is Some,
    ensures
        told_secret(progress.plan.database, database_url) is Some <==> grants.database,
        told_secret(progress.plan.encryption_key, encryption_key) is Some <==> grants.cryptography,
{
}

/// A file, under a random name, that a new version is written to before it takes the place of the
/// old one.
pub fn fresh_temporary_name(stem: &str) -> (name: String)
    ensures
        exists|attempt: u128|
            outside::random_uuid(attempt) && name@ == stem@ + "."@
                + #[trigger] outside::hyphenated(attempt) + ".tmp"@,
{
    let attempt = outside::fresh_uuid();
    temporary_name(stem, attempt)
}

/// The name of the file that a new version is written to before it takes the place of the old
/// one: the stem of the name, with the id of the attempt.
pub fn temporary_name(stem: &str, attempt: u128) -> (name: String)
    ensures
        name@ == stem@ + "."@ + outside::hyphenated(attempt) + ".tmp"@,
{
    let notation = outside::uuid_text(attempt);
    stem.to_owned().concat(".").concat(notation.as_str()).concat(".tmp")
}

impl ConfigureFault {
    /// The text shown for the fault.
    pub open spec fn text(&self) -> Seq<char> {
        match self {
            ConfigureFault::NotAProcess => "不是 process 包"@,
            ConfigureFault::CapabilityForbidden => "process 未开放存储、管理及身份提供能力"@,
            ConfigureFault::EndpointForbidden => "process 模型地址未获宿主授权"@,
        }
    }

    /// The text shown for the fault.
    pub fn message(&self) -> (message: String)
        ensures
            message@ == self.text(),
    {
        let message = match self {
            ConfigureFault::NotAProcess => "不是 process 包",
            ConfigureFault::CapabilityForbidden => "process 未开放存储、管理及身份提供能力",
            ConfigureFault::EndpointForbidden => "process 模型地址未获宿主授权",
        };
        message.to_owned()
    }
}

// Laws

/// A process gets no storage of files, does not manage the host, vouches for nobody, and reaches
/// only the endpoints that the host lists. What is told is the first thing that is wrong.
pub proof fn lemma_what_a_process_may_ask(process: Option<ProcessManifest>, grants: Grants,
    approved: Seq<char>)
    ensures
        process is None ==> configure_fault(process, grants, approved)
            == Some(ConfigureFault::NotAProcess),
        process is Some && (grants.storage || grants.management || grants.identity_provider)
            ==> configure_fault(process, grants, approved)
            == Some(ConfigureFault::CapabilityForbidden),
        process is Some && !grants.storage && !grants.management && !grants.identity_provider
            && (exists|i: int| 0 <= i < process->0.endpoints@.len()
            && !supervision::listed(approved, (#[trigger] process->0.endpoints@[i])@))
            ==> configure_fault(process, grants, approved)
            == Some(ConfigureFault::EndpointForbidden),
        process is Some && !grants.storage && !grants.management && !grants.identity_provider
            && (forall|i: int| 0 <= i < process->0.endpoints@.len()
            ==> supervision::listed(approved, (#[trigger] process->0.endpoints@[i])@))
            ==> configure_fault(process, grants, approved) is None,
{
}

/// A secret is told where it was granted, and never otherwise.
pub proof fn lemma_secrets_are_told_where_granted(secret: Option<Seq<char>>)
    ensures
        told_secret(true, secret) == secret,
        told_secret(false, secret) is None,
{
}

/// A component that has a key in a tenant is given that key, whatever was drawn; one that has none
/// is given the drawn key, which is kept for this component and this tenant. No other row changes.
pub proof fn lemma_whose_key_is_given(rows: Seq<KeyRow>, start: Start, sealed: Seq<u8>,
    ciphertext: Seq<u8>, after: Seq<KeyRow>)
    requires
        keeps_key(rows, start, sealed, ciphertext, after),
        forall|a: int, b: int| 0 <= a < b < rows.len()
            ==> (#[trigger] rows[a]).source != (#[trigger] rows[b]).source
            || rows[a].tenant@ != rows[b].tenant@,
    ensures
        forall|i: int| 0 <= i < rows.len() && (#[trigger] rows[i]).source == start.source
            && rows[i].tenant@ == start.tenant@
            ==> ciphertext == rows[i].ciphertext@ && after == rows,
        (forall|i: int| 0 <= i < rows.len()
            ==> !((#[trigger] rows[i]).source == start.source
            && rows[i].tenant@ == start.tenant@))
            ==> ciphertext == sealed && after.len() == rows.len() + 1
            && after.last().source == start.source && after.last().tenant@ == start.tenant@
            && after.last().ciphertext@ == sealed,
        forall|i: int| 0 <= i < rows.len() ==> after[i] == #[trigger] rows[i],
{
    let owners = key_owners(rows);
    let owner = (start.source, start.tenant@);
    text::lemma_first_index(owners, owner);
    let at = text::first_index(owners, owner);
    assert forall|i: int|
        0 <= i < rows.len() && (#[trigger] rows[i]).source == start.source && rows[i].tenant@
            == start.tenant@ implies ciphertext == rows[i].ciphertext@ && after == rows by {
        assert(owners[i] == owner);
        assert(owners.contains(owner));
        assert(owners[at] == (rows[at].source, rows[at].tenant@));
        if at < i {
            assert(rows[at].source != rows[i].source || rows[at].tenant@ != rows[i].tenant@);
        }
    }
    if at < rows.len() {
        assert(owners[at] == (rows[at].source, rows[at].tenant@));
    } else {
        assert forall|i: int| 0 <= i < rows.len() implies after[i] == #[trigger] rows[i] by {
            assert(after.drop_last()[i] == rows[i]);
        }
    }
}

/// A key is sealed for a component and a tenant, not for a version or a request.
pub proof fn lemma_scope_of_a_key(source: u128, tenant: Seq<char>)
    ensures
        sealed_scope(source, tenant).0 == outside::hyphenated(source),
        sealed_scope(source, tenant).1 == ""@,
        sealed_scope(source, tenant).2.tenant_id == Some(tenant),
        sealed_scope(source, tenant).2.user_id is None,
        sealed_scope(source, tenant).2.session_id is None,
        sealed_scope(source, tenant).2.request_id == ""@,
{
}

/// A process is unpacked first: its directories, its bundle and its executable, in this order.
pub proof fn lemma_process_is_unpacked_first(progress: ConfigureProgress, step: ConfigureStep)
    requires
        progress.asks(step),
    ensures
        progress.directories is None ==> step is CreateDirectories,
        (progress.directories is Some && progress.directories->0 is Err)
            ==> step is Fail && step->Fail_0@ == progress.directories->0->Err_0@,
        (progress.directories is Some && progress.directories->0 is Ok)
            && progress.bundle is None ==> step is WriteBundle,
        (progress.directories is Some && progress.directories->0 is Ok)
            && (progress.bundle is Some && progress.bundle->0 is Err)
            ==> step is Fail && step->Fail_0@ == progress.bundle->0->Err_0@,
        (progress.directories is Some && progress.directories->0 is Ok)
            && (progress.bundle is Some && progress.bundle->0 is Ok)
            && progress.executable is None ==> step is WriteExecutable,
        (progress.directories is Some && progress.directories->0 is Ok)
            && (progress.bundle is Some && progress.bundle->0 is Ok)
            && (progress.executable is Some && progress.executable->0 is Err)
            ==> step is Fail && step->Fail_0@ == progress.executable->0->Err_0@,
{
}

/// A process that encrypts gets its key, and one that stores gets its database and the way to it,
/// before anything else.
pub proof fn lemma_process_gets_what_was_planned(progress: ConfigureProgress, step: ConfigureStep)
    requires
        progress.asks(step),
        (progress.directories is Some && progress.directories->0 is Ok),
        (progress.bundle is Some && progress.bundle->0 is Ok),
        (progress.executable is Some && progress.executable->0 is Ok),
    ensures
        progress.plan.encryption_key && progress.key is None ==> step is PrepareKey,
        progress.plan.encryption_key && (progress.key is Some && progress.key->0 is Err)
            ==> step is Fail && step->Fail_0@ == progress.key->0->Err_0@,
        (progress.plan.encryption_key ==> (progress.key is Some && progress.key->0 is Ok))
            && progress.plan.database && progress.database is None ==> step is PrepareDatabase,
        (progress.plan.encryption_key ==> (progress.key is Some && progress.key->0 is Ok))
            && progress.plan.database && (progress.database is Some
            && progress.database->0 is Err)
            ==> step is Fail && step->Fail_0@ == progress.database->0->Err_0@,
        (progress.plan.encryption_key ==> (progress.key is Some && progress.key->0 is Ok))
            && progress.plan.database && (progress.database is Some
            && progress.database->0 is Ok) && progress.database_served is None
            ==> step is ServeDatabase,
        (progress.plan.encryption_key ==> (progress.key is Some && progress.key->0 is Ok))
            && progress.plan.database && (progress.database is Some
            && progress.database->0 is Ok) && (progress.database_served is Some
            && progress.database_served->0 is Err)
            ==> step is Fail && step->Fail_0@ == progress.database_served->0->Err_0@,
{
}

/// Then its ticket is made, it is told of its surroundings, its way to the host is opened, and it
/// is ready.
pub proof fn lemma_process_is_told_last(progress: ConfigureProgress, step: ConfigureStep)
    requires
        progress.asks(step),
        (progress.directories is Some && progress.directories->0 is Ok),
        (progress.bundle is Some && progress.bundle->0 is Ok),
        (progress.executable is Some && progress.executable->0 is Ok),
        progress.plan.encryption_key ==> (progress.key is Some && progress.key->0 is Ok),
        progress.plan.database ==> (progress.database is Some && progress.database->0 is Ok)
            && (progress.database_served is Some && progress.database_served->0 is Ok),
    ensures
        progress.ticket is None ==> step is MakeTicket,
        (progress.ticket is Some && progress.ticket->0 is Err)
            ==> step is Fail && step->Fail_0@ == progress.ticket->0->Err_0@,
        (progress.ticket is Some && progress.ticket->0 is Ok) && progress.configuration is None
            ==> step is WriteConfiguration,
        (progress.ticket is Some && progress.ticket->0 is Ok) && (progress.configuration is Some
            && progress.configuration->0 is Err)
            ==> step is Fail && step->Fail_0@ == progress.configuration->0->Err_0@,
        (progress.ticket is Some && progress.ticket->0 is Ok) && (progress.configuration is Some
            && progress.configuration->0 is Ok) && progress.broker_served is None
            ==> step is ServeBroker,
        (progress.ticket is Some && progress.ticket->0 is Ok) && (progress.configuration is Some
            && progress.configuration->0 is Ok) && (progress.broker_served is Some
            && progress.broker_served->0 is Err)
            ==> step is Fail && step->Fail_0@ == progress.broker_served->0->Err_0@,
        (progress.ticket is Some && progress.ticket->0 is Ok) && (progress.configuration is Some
            && progress.configuration->0 is Ok) && (progress.broker_served is Some
            && progress.broker_served->0 is Ok) ==> step is Ready,
{
}

/// Each of these is told in its own words.
pub proof fn lemma_told_configure_fault(fault: ConfigureFault)
    ensures
        fault is NotAProcess ==> fault.text() == "不是 process 包"@,
        fault is CapabilityForbidden ==> fault.text() == "process 未开放存储、管理及身份提供能力"@,
        fault is EndpointForbidden ==> fault.text() == "process 模型地址未获宿主授权"@,
{
}

} // verus!
