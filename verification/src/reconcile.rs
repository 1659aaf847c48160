use vstd::prelude::*;

use crate::encoding::decodable_length;
use crate::error::{ControllerError, ControllerErrorView};
use crate::resource::{
    byte_entries_view, keys_distinct, lemma_same_keys_distinct, object_to_owner_reference, owner_reference_for, synced_secret_api_version,
    synced_secret_kind, text_entries_view, ObjectMeta, ObjectMetaView, OwnerReference,
    OwnerReferenceView,
    SecretObject, SecretObjectView, SyncedSecret, SyncedSecretView,
};
use crate::sealing::{
    secret_key_from_text, unseal_entries, unsealed_entries, values_decodable, SealingKey,
};
use crate::vault::{
    cluster_data, cluster_data_of, entries_from_document, entries_of_document, payload_of,
    vault_entries_view, vault_path, vault_path_of, vault_payload, VaultDocument,
    VaultDocumentView, VaultValue,
};

verus! {

/// Shortest wait, in seconds, before a reconcile that succeeded is run again.
pub const REQUEUE_MIN_SECS: u64 = 180;

/// Bound, in seconds and not reached, of the wait before a reconcile that succeeded is run again.
pub const REQUEUE_MAX_SECS: u64 = 300;

/// The field manager under which the controller applies secrets.
pub open spec fn field_manager_name() -> Seq<char> {
    "arcanum.njha.dev"@
}

/// Calls `rand::Rng::gen_range(low..high)` on the thread's random generator.
///
/// Trusted: the number lies in `low..high`, as the crate documents; which one depends on
/// chance. The crate panics on an empty range, which `requires` rules out.
#[verifier::external_body]
fn random_in_range(low: u64, high: u64) -> (r: u64)
    requires
        low < high,
    ensures
        low <= r < high,
{
    rand::Rng::gen_range(&mut rand::thread_rng(), low..high)
}

/// What the controller found of a secret in the cluster: nothing (the read failed), or a
/// secret with its data.
pub enum ClusterSecret {
    Missing,
    Present { data: Option<Vec<(String, Vec<u8>)>> },
}

pub enum ClusterSecretView {
    Missing,
    Present { data: Option<Seq<(Seq<char>, Seq<u8>)>> },
}

impl View for ClusterSecret {
    type V = ClusterSecretView;

    open spec fn view(&self) -> ClusterSecretView {
        match self {
            ClusterSecret::Missing => ClusterSecretView::Missing,
            ClusterSecret::Present { data } => ClusterSecretView::Present {
                data: match data {
                    Some(d) => Some(byte_entries_view(d@)),
                    None => None,
                },
            },
        }
    }
}

/// The answer of a Vault read taken as plain values.
pub open spec fn vault_result_view(vault: Result<VaultDocument, String>) -> Result<VaultDocumentView, Seq<char>> {
    match vault {
        Ok(doc) => Ok(doc@),
        Err(m) => Err(m@),
    }
}

/// What the outside world answers to the reconciler.
pub enum Event {
    /// A reconcile of the resource begins, with the controller's secret key in base64.
    Start { encoded_key: String },
    /// The secret was looked up in the cluster and in Vault (a Vault error as its message).
    Looked { cluster: ClusterSecret, vault: Result<VaultDocument, String> },
    /// Vault answered the write of the cluster's data (an error as its message).
    Pushed { result: Result<(), String> },
    /// The cluster answered the write of the secret (an error as its message).
    Written { result: Result<(), String> },
}

pub enum EventView {
    Start { encoded_key: Seq<char> },
    Looked { cluster: ClusterSecretView, vault: Result<VaultDocumentView, Seq<char>> },
    Pushed { result: Result<(), Seq<char>> },
    Written { result: Result<(), Seq<char>> },
}

impl View for Event {
    type V = EventView;

    open spec fn view(&self) -> EventView {
        match self {
            Event::Start { encoded_key } => EventView::Start { encoded_key: encoded_key@ },
            Event::Looked { cluster, vault } => EventView::Looked {
                cluster: cluster@,
                vault: vault_result_view(*vault),
            },
            Event::Pushed { result } => EventView::Pushed {
                result: match result {
                    Ok(()) => Ok(()),
                    Err(m) => Err(m@),
                },
            },
            Event::Written { result } => EventView::Written {
                result: match result {
                    Ok(()) => Ok(()),
                    Err(m) => Err(m@),
                },
            },
        }
    }
}

/// Why a reconcile cannot go on at all; the runner stops the reconcile task.
pub enum Fault {
    MissingName,
    MissingNamespace,
    MissingUid,
    BadKey(ControllerError),
    CannotUnseal,
    NonTextVaultValue,
    NonUtf8ClusterValue,
    WriteRefused(String),
    UnexpectedEvent,
}

pub enum FaultView {
    MissingName,
    MissingNamespace,
    MissingUid,
    BadKey(ControllerErrorView),
    CannotUnseal,
    NonTextVaultValue,
    NonUtf8ClusterValue,
    WriteRefused(Seq<char>),
    UnexpectedEvent,
}

impl View for Fault {
    type V = FaultView;

    open spec fn view(&self) -> FaultView {
        match self {
            Fault::MissingName => FaultView::MissingName,
            Fault::MissingNamespace => FaultView::MissingNamespace,
            Fault::MissingUid => FaultView::MissingUid,
            Fault::BadKey(e) => FaultView::BadKey(e@),
            Fault::CannotUnseal => FaultView::CannotUnseal,
            Fault::NonTextVaultValue => FaultView::NonTextVaultValue,
            Fault::NonUtf8ClusterValue => FaultView::NonUtf8ClusterValue,
            Fault::WriteRefused(m) => FaultView::WriteRefused(m@),
            Fault::UnexpectedEvent => FaultView::UnexpectedEvent,
        }
    }
}

/// What the reconciler asks the outside world to do next.
pub enum Action {
    /// Read the secret `name` of `namespace` from the cluster, and `vault_path` from Vault.
    Lookup { namespace: String, name: String, vault_path: String },
    /// Write the payload to Vault at `vault_path`.
    PushToVault { vault_path: String, payload: Vec<(String, String)> },
    /// Apply the secret server-side in `namespace` under the field manager.
    ApplySecret { namespace: String, name: String, field_manager: String, secret: SecretObject },
    /// Create the secret in `namespace`.
    CreateSecret { namespace: String, secret: SecretObject },
    /// The reconcile succeeded: run it again after this many seconds.
    Requeue { after_secs: u64 },
    /// The reconcile failed with this error.
    Fail { error: ControllerError },
    /// The reconcile cannot go on.
    Abort { fault: Fault },
}

/// An [`Action`] taken as plain values; the wait of a requeue, which is chosen by chance,
/// is left out.
pub enum ActionView {
    Lookup { namespace: Seq<char>, name: Seq<char>, vault_path: Seq<char> },
    PushToVault { vault_path: Seq<char>, payload: Seq<(Seq<char>, Seq<char>)> },
    ApplySecret {
        namespace: Seq<char>,
        name: Seq<char>,
        field_manager: Seq<char>,
        secret: SecretObjectView,
    },
    CreateSecret { namespace: Seq<char>, secret: SecretObjectView },
    Requeue,
    Fail { error: ControllerErrorView },
    Abort { fault: FaultView },
}

impl View for Action {
    type V = ActionView;

    open spec fn view(&self) -> ActionView {
        match self {
            Action::Lookup { namespace, name, vault_path } => ActionView::Lookup {
                namespace: namespace@,
                name: name@,
                vault_path: vault_path@,
            },
            Action::PushToVault { vault_path, payload } => ActionView::PushToVault {
                vault_path: vault_path@,
                payload: text_entries_view(payload@),
            },
            Action::ApplySecret { namespace, name, field_manager, secret } => ActionView::ApplySecret {
                namespace: namespace@,
                name: name@,
                field_manager: field_manager@,
                secret: secret@,
            },
            Action::CreateSecret { namespace, secret } => ActionView::CreateSecret {
                namespace: namespace@,
                secret: secret@,
            },
            Action::Requeue { .. } => ActionView::Requeue,
            Action::Fail { error } => ActionView::Fail { error: error@ },
            Action::Abort { fault } => ActionView::Abort { fault: fault@ },
        }
    }
}

/// Where a reconcile stands.
pub enum ReconcileState {
    Init,
    AwaitingLookup { key: SealingKey, namespace: String, name: String },
    AwaitingPush { pending: ControllerError },
    AwaitingWrite,
    Done,
}

pub enum ReconcileStateView {
    Init,
    AwaitingLookup { key: Seq<u8>, namespace: Seq<char>, name: Seq<char> },
    AwaitingPush { pending: ControllerErrorView },
    AwaitingWrite,
    Done,
}

impl View for ReconcileState {
    type V = ReconcileStateView;

    open spec fn view(&self) -> ReconcileStateView {
        match self {
            ReconcileState::Init => ReconcileStateView::Init,
            ReconcileState::AwaitingLookup { key, namespace, name } => ReconcileStateView::AwaitingLookup {
                key: key@,
                namespace: namespace@,
                name: name@,
            },
            ReconcileState::AwaitingPush { pending } => ReconcileStateView::AwaitingPush {
                pending: pending@,
            },
            ReconcileState::AwaitingWrite => ReconcileStateView::AwaitingWrite,
            ReconcileState::Done => ReconcileStateView::Done,
        }
    }
}

/// What a reconcile does when it begins.
pub open spec fn start_plan(cr: SyncedSecretView, encoded_key: Seq<char>) -> (
    ReconcileStateView,
    ActionView,
) {
    if cr.metadata.name is None {
        (ReconcileStateView::Done, ActionView::Abort { fault: FaultView::MissingName })
    } else if cr.metadata.namespace is None {
        (ReconcileStateView::Done, ActionView::Abort { fault: FaultView::MissingNamespace })
    } else {
        let name = cr.metadata.name->0;
        let namespace = cr.metadata.namespace->0;
        match secret_key_from_text(encoded_key) {
            Err(e) => (ReconcileStateView::Done, ActionView::Abort { fault: FaultView::BadKey(e) }),
            Ok(key) => (
                ReconcileStateView::AwaitingLookup { key, namespace, name },
                ActionView::Lookup { namespace, name, vault_path: vault_path_of(namespace, name) },
            ),
        }
    }
}

/// The secret that the controller writes for the resource: named `name`, owned by the
/// resource, holding `data`.
pub open spec fn secret_for(cr: SyncedSecretView, name: Seq<char>, data: Seq<(Seq<char>, Seq<u8>)>) -> SecretObjectView {
    SecretObjectView {
        metadata: ObjectMetaView {
            name: Some(name),
            namespace: None,
            uid: None,
            owner_references: Some(
                seq![owner_reference_for("njha.dev/v1"@, "SyncedSecret"@, cr.metadata)],
            ),
        },
        data: Some(data),
    }
}

/// What the controller does to write Vault-shaped entries into the cluster: apply them
/// over the existing secret, or create the secret.
pub open spec fn write_plan(
    cr: SyncedSecretView,
    namespace: Seq<char>,
    name: Seq<char>,
    entries: Seq<(Seq<char>, Option<Seq<char>>)>,
    apply: bool,
) -> (ReconcileStateView, ActionView) {
    match cluster_data_of(entries) {
        None => (ReconcileStateView::Done, ActionView::Abort { fault: FaultView::NonTextVaultValue }),
        Some(data) => if cr.metadata.name is None {
            (ReconcileStateView::Done, ActionView::Abort { fault: FaultView::MissingName })
        } else if cr.metadata.uid is None {
            (ReconcileStateView::Done, ActionView::Abort { fault: FaultView::MissingUid })
        } else if apply {
            (
                ReconcileStateView::AwaitingWrite,
                ActionView::ApplySecret {
                    namespace,
                    name,
                    field_manager: field_manager_name(),
                    secret: secret_for(cr, name, data),
                },
            )
        } else {
            (
                ReconcileStateView::AwaitingWrite,
                ActionView::CreateSecret { namespace, secret: secret_for(cr, name, data) },
            )
        },
    }
}

/// What a lookup in Vault yields: its entries, or the error of the read.
pub open spec fn vault_outcome(vault: Result<VaultDocumentView, Seq<char>>) -> Result<
    Seq<(Seq<char>, Option<Seq<char>>)>,
    ControllerErrorView,
> {
    match vault {
        Err(m) => Err(ControllerErrorView::VaultError(m)),
        Ok(doc) => entries_of_document(doc),
    }
}

/// What the controller does once it has looked the secret up in the cluster and in Vault.
pub open spec fn lookup_plan(
    cr: SyncedSecretView,
    key: Seq<u8>,
    namespace: Seq<char>,
    name: Seq<char>,
    cluster: ClusterSecretView,
    vault: Result<VaultDocumentView, Seq<char>>,
) -> (ReconcileStateView, ActionView) {
    match cluster {
        ClusterSecretView::Present { data } => match vault_outcome(vault) {
            Err(e) => {
                let data = match data {
                    Some(d) => d,
                    None => Seq::empty(),
                };
                match payload_of(data) {
                    None => (
                        ReconcileStateView::Done,
                        ActionView::Abort { fault: FaultView::NonUtf8ClusterValue },
                    ),
                    Some(payload) => (
                        ReconcileStateView::AwaitingPush { pending: e },
                        ActionView::PushToVault {
                            vault_path: vault_path_of(namespace, name),
                            payload,
                        },
                    ),
                }
            },
            Ok(entries) => write_plan(cr, namespace, name, entries, true),
        },
        ClusterSecretView::Missing => match vault_outcome(vault) {
            Ok(entries) => write_plan(cr, namespace, name, entries, true),
            Err(_) => match unsealed_entries(key, cr.spec.data) {
                None => (ReconcileStateView::Done, ActionView::Abort { fault: FaultView::CannotUnseal }),
                Some(entries) => write_plan(cr, namespace, name, entries, false),
            },
        },
    }
}

/// One step of a reconcile of `cr`: from where it stands and what the world answered, to
/// where it stands next and what it asks for.
pub open spec fn reconcile_step_spec(
    cr: SyncedSecretView,
    state: ReconcileStateView,
    event: EventView,
) -> (ReconcileStateView, ActionView) {
    match (state, event) {
        (ReconcileStateView::Init, EventView::Start { encoded_key }) => start_plan(cr, encoded_key),
        (
            ReconcileStateView::AwaitingLookup { key, namespace, name },
            EventView::Looked { cluster, vault },
        ) => lookup_plan(cr, key, namespace, name, cluster, vault),
        (ReconcileStateView::AwaitingPush { pending }, EventView::Pushed { result }) => match result {
            Err(m) => (
                ReconcileStateView::Done,
                ActionView::Fail { error: ControllerErrorView::VaultError(m) },
            ),
            Ok(()) => (ReconcileStateView::Done, ActionView::Fail { error: pending }),
        },
        (ReconcileStateView::AwaitingWrite, EventView::Written { result }) => match result {
            Err(m) => (ReconcileStateView::Done, ActionView::Abort { fault: FaultView::WriteRefused(m) }),
            Ok(()) => (ReconcileStateView::Done, ActionView::Requeue),
        },
        _ => (ReconcileStateView::Done, ActionView::Abort { fault: FaultView::UnexpectedEvent }),
    }
}

/// The data that a step reads are maps: the resource's sealed entries, the cluster's secret
/// data and Vault's object each hold no key twice.
pub open spec fn inputs_are_maps(cr: SyncedSecretView, event: EventView) -> bool {
    &&& keys_distinct(cr.spec.data)
    &&& match event {
        EventView::Looked { cluster, vault } => {
            &&& (cluster matches ClusterSecretView::Present { data: Some(d) } ==> keys_distinct(d))
            &&& (vault matches Ok(VaultDocumentView::Object(e)) ==> keys_distinct(e))
        },
        _ => true,
    }
}

/// The data that an action writes is a map: no key occurs twice.
pub open spec fn writes_maps(action: ActionView) -> bool {
    match action {
        ActionView::PushToVault { payload, .. } => keys_distinct(payload),
        ActionView::ApplySecret { secret, .. } => secret.data matches Some(d) && keys_distinct(d),
        ActionView::CreateSecret { secret, .. } => secret.data matches Some(d) && keys_distinct(d),
        _ => true,
    }
}

/// Where what a step reads are maps, what it writes is a map.
pub proof fn lemma_step_writes_maps(cr: SyncedSecretView, state: ReconcileStateView, event: EventView)
    requires
        inputs_are_maps(cr, event),
    ensures
        writes_maps(reconcile_step_spec(cr, state, event).1),
{
    if let (ReconcileStateView::AwaitingLookup { key, namespace, name }, EventView::Looked { cluster, vault }) = (state, event) {
        let found = vault_outcome(vault);
        if let Ok(entries) = found {
            assert(keys_distinct(entries));
            if let Some(data) = cluster_data_of(entries) {
                lemma_same_keys_distinct(entries, data);
            }
        }
        if let ClusterSecretView::Present { data } = cluster {
            if found is Err {
                let d = match data {
                    Some(d) => d,
                    None => Seq::empty(),
                };
                if let Some(payload) = payload_of(d) {
                    lemma_same_keys_distinct(d, payload);
                }
            }
        } else if found is Err {
            if let Some(entries) = unsealed_entries(key, cr.spec.data) {
                lemma_same_keys_distinct(cr.spec.data, entries);
                if let Some(data) = cluster_data_of(entries) {
                    lemma_same_keys_distinct(entries, data);
                }
            }
        }
    }
}

/// The inputs of a step are within the machine's limits: a key text and the sealed values
/// short enough to decode.
pub open spec fn step_within_limits(cr: SyncedSecretView, event: EventView) -> bool {
    match event {
        EventView::Start { encoded_key } => decodable_length(encoded_key),
        EventView::Looked { .. } => values_decodable(cr.spec.data),
        _ => true,
    }
}

fn start(cr: &SyncedSecret, encoded_key: &str) -> (r: (ReconcileState, Action))
    requires
        decodable_length(encoded_key@),
    ensures
        (r.0@, r.1@) == start_plan(cr@, encoded_key@),
{
    let name = match &cr.metadata.name {
        Some(n) => n.clone(),
        None => {
            return (ReconcileState::Done, Action::Abort { fault: Fault::MissingName });
        },
    };
    let namespace = match &cr.metadata.namespace {
        Some(n) => n.clone(),
        None => {
            return (ReconcileState::Done, Action::Abort { fault: Fault::MissingNamespace });
        },
    };
    match SealingKey::from_base64(encoded_key) {
        Err(e) => (ReconcileState::Done, Action::Abort { fault: Fault::BadKey(e) }),
        Ok(key) => {
            let path = vault_path(namespace.as_str(), name.as_str());
            let action = Action::Lookup {
                namespace: namespace.clone(),
                name: name.clone(),
                vault_path: path,
            };
            (ReconcileState::AwaitingLookup { key, namespace, name }, action)
        },
    }
}

fn write_secret(
    cr: &SyncedSecret,
    namespace: String,
    name: String,
    entries: &Vec<(String, VaultValue)>,
    apply: bool,
) -> (r: (ReconcileState, Action))
    ensures
        (r.0@, r.1@) == write_plan(cr@, namespace@, name@, vault_entries_view(entries@), apply),
{
    let data = match cluster_data(entries) {
        Some(d) => d,
        None => {
            return (ReconcileState::Done, Action::Abort { fault: Fault::NonTextVaultValue });
        },
    };
    if cr.metadata.name.is_none() {
        return (ReconcileState::Done, Action::Abort { fault: Fault::MissingName });
    }
    if cr.metadata.uid.is_none() {
        return (ReconcileState::Done, Action::Abort { fault: Fault::MissingUid });
    }
    let api_version = synced_secret_api_version();
    let kind = synced_secret_kind();
    let owner = match object_to_owner_reference(
        api_version.as_str(),
        kind.as_str(),
        cr.metadata.copy(),
    ) {
        Ok(o) => o,
        Err(_) => {
            proof {
                assert(false);
            }
            return (ReconcileState::Done, Action::Abort { fault: Fault::MissingUid });
        },
    };
    let mut owners: Vec<OwnerReference> = Vec::new();
    owners.push(owner);
    let secret = SecretObject {
        metadata: ObjectMeta {
            name: Some(name.clone()),
            namespace: None,
            uid: None,
            owner_references: Some(owners),
        },
        data: Some(data),
    };
    proof {
        assert(owners@.map_values(|o: OwnerReference| o@) =~= seq![
            owner_reference_for("njha.dev/v1"@, "SyncedSecret"@, cr@.metadata),
        ]);
        assert(secret@ == secret_for(cr@, name@, cluster_data_of(vault_entries_view(entries@))->0));
    }
    if apply {
        let action = Action::ApplySecret {
            namespace,
            name,
            field_manager: "arcanum.njha.dev".to_owned(),
            secret,
        };
        (ReconcileState::AwaitingWrite, action)
    } else {
        (ReconcileState::AwaitingWrite, Action::CreateSecret { namespace, secret })
    }
}

fn after_lookup(
    cr: &SyncedSecret,
    key: SealingKey,
    namespace: String,
    name: String,
    cluster: ClusterSecret,
    vault: Result<VaultDocument, String>,
) -> (r: (ReconcileState, Action))
    requires
        values_decodable(cr@.spec.data),
    ensures
        (r.0@, r.1@) == lookup_plan(cr@, key@, namespace@, name@, cluster@, vault_result_view(vault)),
{
    let ghost vault_view = vault_result_view(vault);
    let found: Result<Vec<(String, VaultValue)>, ControllerError> = match vault {
        Err(m) => Err(ControllerError::VaultError(m)),
        Ok(doc) => entries_from_document(doc),
    };
    assert(match (found, vault_outcome(vault_view)) {
        (Ok(entries), Ok(expected)) => vault_entries_view(entries@) == expected,
        (Err(e), Err(expected)) => e@ == expected,
        _ => false,
    });
    match cluster {
        ClusterSecret::Present { data } => match found {
            Err(e) => {
                let data = match data {
                    Some(d) => d,
                    None => Vec::new(),
                };
                proof {
                    assert(byte_entries_view(data@) =~= match cluster@ {
                        ClusterSecretView::Present { data } => match data {
                            Some(d) => d,
                            None => Seq::empty(),
                        },
                        _ => Seq::empty(),
                    });
                }
                match vault_payload(&data) {
                    None => (ReconcileState::Done, Action::Abort { fault: Fault::NonUtf8ClusterValue }),
                    Some(payload) => {
                        let path = vault_path(namespace.as_str(), name.as_str());
                        (
                            ReconcileState::AwaitingPush { pending: e },
                            Action::PushToVault { vault_path: path, payload },
                        )
                    },
                }
            },
            Ok(entries) => write_secret(cr, namespace, name, &entries, true),
        },
        ClusterSecret::Missing => match found {
            Ok(entries) => write_secret(cr, namespace, name, &entries, true),
            Err(_) => match unseal_entries(&key, &cr.spec.data) {
                None => (ReconcileState::Done, Action::Abort { fault: Fault::CannotUnseal }),
                Some(entries) => write_secret(cr, namespace, name, &entries, false),
            },
        },
    }
}

/// One step of a reconcile of `cr`. The runner starts in [`ReconcileState::Init`] with
/// [`Event::Start`], performs each action it is given and hands back what came of it, until
/// the action is a requeue, a failure or an abort.
pub fn reconcile_step(cr: &SyncedSecret, state: ReconcileState, event: Event) -> (r: (
    ReconcileState,
    Action,
))
    requires
        step_within_limits(cr@, event@),
        inputs_are_maps(cr@, event@),
    ensures
        (r.0@, r.1@) == reconcile_step_spec(cr@, state@, event@),
        writes_maps(r.1@),
        r.1 matches Action::Requeue { after_secs } ==> REQUEUE_MIN_SECS <= after_secs
            < REQUEUE_MAX_SECS,
{
    proof {
        lemma_step_writes_maps(cr@, state@, event@);
    }
    match (state, event) {
        (ReconcileState::Init, Event::Start { encoded_key }) => start(cr, encoded_key.as_str()),
        (
            ReconcileState::AwaitingLookup { key, namespace, name },
            Event::Looked { cluster, vault },
        ) => after_lookup(cr, key, namespace, name, cluster, vault),
        (ReconcileState::AwaitingPush { pending }, Event::Pushed { result }) => match result {
            Err(m) => (ReconcileState::Done, Action::Fail { error: ControllerError::VaultError(m) }),
            Ok(()) => (ReconcileState::Done, Action::Fail { error: pending }),
        },
        (ReconcileState::AwaitingWrite, Event::Written { result }) => match result {
            Err(m) => (ReconcileState::Done, Action::Abort { fault: Fault::WriteRefused(m) }),
            Ok(()) => {
                let after_secs = random_in_range(REQUEUE_MIN_SECS, REQUEUE_MAX_SECS);
                (ReconcileState::Done, Action::Requeue { after_secs })
            },
        },
        _ => (ReconcileState::Done, Action::Abort { fault: Fault::UnexpectedEvent }),
    }
}

/// How many rounds of outside work a reconcile can still ask for from where it stands.
pub open spec fn rounds_left(state: ReconcileStateView) -> nat {
    match state {
        ReconcileStateView::Init => 3,
        ReconcileStateView::AwaitingLookup { .. } => 2,
        ReconcileStateView::AwaitingPush { .. } => 1,
        ReconcileStateView::AwaitingWrite => 1,
        ReconcileStateView::Done => 0,
    }
}

/// The actions that end a reconcile.
pub open spec fn ends_reconcile(action: ActionView) -> bool {
    action is Requeue || action is Fail || action is Abort
}

/// The actions that write the secret into the cluster.
pub open spec fn writes_cluster(action: ActionView) -> bool {
    action is ApplySecret || action is CreateSecret
}

/// Every step of an unfinished reconcile brings it closer to its end, and a step ends the
/// reconcile exactly when its action is a requeue, a failure or an abort: a reconcile asks
/// for at most three rounds of outside work.
pub proof fn lemma_reconcile_finishes(
    cr: SyncedSecretView,
    state: ReconcileStateView,
    event: EventView,
)
    ensures
        ({
            let (next, action) = reconcile_step_spec(cr, state, event);
            &&& (state is Done || rounds_left(next) < rounds_left(state))
            &&& (next is Done <==> ends_reconcile(action))
        }),
{
}

/// Where Vault holds the secret as an object of strings, the controller applies exactly
/// Vault's entries to the cluster, whatever the cluster held.
pub proof fn lemma_vault_copy_wins(
    cr: SyncedSecretView,
    key: Seq<u8>,
    namespace: Seq<char>,
    name: Seq<char>,
    cluster: ClusterSecretView,
    entries: Seq<(Seq<char>, Option<Seq<char>>)>,
)
    requires
        cluster_data_of(entries) is Some,
        cr.metadata.name is Some,
        cr.metadata.uid is Some,
    ensures
        reconcile_step_spec(
            cr,
            ReconcileStateView::AwaitingLookup { key, namespace, name },
            EventView::Looked { cluster, vault: Ok(VaultDocumentView::Object(entries)) },
        ) == (
            ReconcileStateView::AwaitingWrite,
            ActionView::ApplySecret {
                namespace,
                name,
                field_manager: field_manager_name(),
                secret: secret_for(cr, name, cluster_data_of(entries)->0),
            },
        ),
{
}

/// Where the secret exists in the cluster and Vault does not answer with it, the controller
/// pushes the cluster's data to Vault (from where it would pull back unchanged), and the
/// reconcile then ends in failure whatever Vault answers: the cluster's secret is left alone.
pub proof fn lemma_cluster_secret_pushed_and_left_alone(
    cr: SyncedSecretView,
    key: Seq<u8>,
    namespace: Seq<char>,
    name: Seq<char>,
    data: Seq<(Seq<char>, Seq<u8>)>,
    vault: Result<VaultDocumentView, Seq<char>>,
    answer: EventView,
)
    requires
        vault_outcome(vault) is Err,
        payload_of(data) is Some,
    ensures
        ({
            let (next, action) = reconcile_step_spec(
                cr,
                ReconcileStateView::AwaitingLookup { key, namespace, name },
                EventView::Looked { cluster: ClusterSecretView::Present { data: Some(data) }, vault },
            );
            let (last, final_action) = reconcile_step_spec(cr, next, answer);
            &&& action == ActionView::PushToVault {
                vault_path: vault_path_of(namespace, name),
                payload: payload_of(data)->0,
            }
            &&& cluster_data_of(crate::vault::stored_texts(payload_of(data)->0)) == Some(data)
            &&& !writes_cluster(final_action)
            &&& (answer is Pushed ==> final_action is Fail)
            &&& last is Done
        }),
{
    crate::vault::lemma_push_then_pull(data);
}

/// Where neither the cluster nor Vault has the secret, the controller creates it from the
/// resource's values: where each value unseals under the controller's key, each entry holds
/// the plaintext it unseals to.
pub proof fn lemma_created_from_unsealed_values(
    cr: SyncedSecretView,
    key: Seq<u8>,
    namespace: Seq<char>,
    name: Seq<char>,
    vault: Result<VaultDocumentView, Seq<char>>,
    plaintexts: Seq<Seq<char>>,
)
    requires
        vault_outcome(vault) is Err,
        cr.metadata.name is Some,
        cr.metadata.uid is Some,
        plaintexts.len() == cr.spec.data.len(),
        forall|i: int|
            0 <= i < plaintexts.len() ==> crate::sealing::unsealed(key, cr.spec.data[i].1) == Some(
                #[trigger] plaintexts[i],
            ),
    ensures
        reconcile_step_spec(
            cr,
            ReconcileStateView::AwaitingLookup { key, namespace, name },
            EventView::Looked { cluster: ClusterSecretView::Missing, vault },
        ) == (
            ReconcileStateView::AwaitingWrite,
            ActionView::CreateSecret {
                namespace,
                secret: secret_for(
                    cr,
                    name,
                    Seq::new(
                        plaintexts.len(),
                        |i: int| (cr.spec.data[i].0, vstd::utf8::encode_utf8(plaintexts[i])),
                    ),
                ),
            },
        ),
{
    let data = cr.spec.data;
    assert forall|i: int| 0 <= i < data.len() implies crate::sealing::unsealed(key, #[trigger] data[i].1)
        == Some(plaintexts[i]) by {
        assert(crate::sealing::unsealed(key, cr.spec.data[i].1) == Some(plaintexts[i]));
    }
    let entries = unsealed_entries(key, data)->0;
    assert(forall|i: int| 0 <= i < entries.len() ==> (#[trigger] entries[i].1) is Some);
    assert(cluster_data_of(entries)->0 =~= Seq::new(
        plaintexts.len(),
        |i: int| (data[i].0, vstd::utf8::encode_utf8(plaintexts[i])),
    ));
}

/// Where neither the cluster nor Vault has the secret, the controller creates it from the
/// resource's sealed values: each entry holds the plaintext that its value was sealed from
/// for the controller's key.
pub proof fn lemma_created_from_sealed_values(
    cr: SyncedSecretView,
    key: Seq<u8>,
    namespace: Seq<char>,
    name: Seq<char>,
    vault: Result<VaultDocumentView, Seq<char>>,
    plaintexts: Seq<Seq<char>>,
)
    requires
        key.len() == crate::cipher::KEY_LENGTH,
        vault_outcome(vault) is Err,
        cr.metadata.name is Some,
        cr.metadata.uid is Some,
        plaintexts.len() == cr.spec.data.len(),
        forall|i: int|
            0 <= i < plaintexts.len() ==> crate::sealing::sealed_for(
                crate::cipher::ecies_public_key(key),
                #[trigger] plaintexts[i],
                cr.spec.data[i].1,
            ),
    ensures
        reconcile_step_spec(
            cr,
            ReconcileStateView::AwaitingLookup { key, namespace, name },
            EventView::Looked { cluster: ClusterSecretView::Missing, vault },
        ) == (
            ReconcileStateView::AwaitingWrite,
            ActionView::CreateSecret {
                namespace,
                secret: secret_for(
                    cr,
                    name,
                    Seq::new(
                        plaintexts.len(),
                        |i: int| (cr.spec.data[i].0, vstd::utf8::encode_utf8(plaintexts[i])),
                    ),
                ),
            },
        ),
{
    assert forall|i: int| 0 <= i < plaintexts.len() implies crate::sealing::unsealed(
        key,
        cr.spec.data[i].1,
    ) == Some(#[trigger] plaintexts[i]) by {
        crate::sealing::lemma_unseal_inverts_seal(key, plaintexts[i], cr.spec.data[i].1);
    }
    lemma_created_from_unsealed_values(cr, key, namespace, name, vault, plaintexts);
}

/// The two stores that a reconcile of one resource reads and writes: the data of its secret
/// in the cluster and the strings kept at its path in Vault (`None` where there is none).
pub struct World {
    pub cluster: Option<Seq<(Seq<char>, Seq<u8>)>>,
    pub vault: Option<Seq<(Seq<char>, Seq<char>)>>,
}

/// What a lookup in the cluster finds in a world.
pub open spec fn cluster_seen(world: World) -> ClusterSecretView {
    match world.cluster {
        Some(data) => ClusterSecretView::Present { data: Some(data) },
        None => ClusterSecretView::Missing,
    }
}

/// What a read of Vault gives in a world; `missing` is Vault's error for an empty path.
pub open spec fn vault_seen(world: World, missing: Seq<char>) -> Result<VaultDocumentView, Seq<char>> {
    match world.vault {
        Some(entries) => Ok(VaultDocumentView::Object(crate::vault::stored_texts(entries))),
        None => Err(missing),
    }
}

/// The world after the action of the second step is carried out and succeeds, with the
/// action that the reconcile then ends with.
pub open spec fn carry_out(
    cr: SyncedSecretView,
    state: ReconcileStateView,
    action: ActionView,
    world: World,
) -> (World, ActionView) {
    match action {
        ActionView::PushToVault { payload, .. } => (
            World { cluster: world.cluster, vault: Some(payload) },
            reconcile_step_spec(cr, state, EventView::Pushed { result: Ok(()) }).1,
        ),
        ActionView::ApplySecret { secret, .. } => (
            World { cluster: secret.data, vault: world.vault },
            reconcile_step_spec(cr, state, EventView::Written { result: Ok(()) }).1,
        ),
        ActionView::CreateSecret { secret, .. } => (
            World { cluster: secret.data, vault: world.vault },
            reconcile_step_spec(cr, state, EventView::Written { result: Ok(()) }).1,
        ),
        _ => (world, action),
    }
}

/// One whole reconcile of `cr` against a world in which every write succeeds and nothing
/// else writes: the world after it, and the action it ends with.
pub open spec fn reconcile_run(
    cr: SyncedSecretView,
    encoded_key: Seq<char>,
    missing: Seq<char>,
    world: World,
) -> (World, ActionView) {
    let (s1, a1) = reconcile_step_spec(cr, ReconcileStateView::Init, EventView::Start { encoded_key });
    if a1 is Lookup {
        let (s2, a2) = reconcile_step_spec(
            cr,
            s1,
            EventView::Looked { cluster: cluster_seen(world), vault: vault_seen(world, missing) },
        );
        carry_out(cr, s2, a2, world)
    } else {
        (world, a1)
    }
}

/// A resource that can be reconciled: it has a name, a namespace and a uid, and the key
/// text holds the secret key.
pub open spec fn reconcilable(cr: SyncedSecretView, encoded_key: Seq<char>, key: Seq<u8>) -> bool {
    &&& cr.metadata.name is Some
    &&& cr.metadata.namespace is Some
    &&& cr.metadata.uid is Some
    &&& secret_key_from_text(encoded_key) == Ok::<Seq<u8>, ControllerErrorView>(key)
}

/// Once Vault holds the strings `entries`, every reconcile makes the cluster's secret hold
/// their UTF-8 bytes, changes nothing else, and succeeds: a world where the cluster already
/// holds them is a fixed point.
pub proof fn lemma_vault_copy_is_fixed_point(
    cr: SyncedSecretView,
    encoded_key: Seq<char>,
    key: Seq<u8>,
    missing: Seq<char>,
    entries: Seq<(Seq<char>, Seq<char>)>,
    cluster: Option<Seq<(Seq<char>, Seq<u8>)>>,
)
    requires
        reconcilable(cr, encoded_key, key),
    ensures
        cluster_data_of(crate::vault::stored_texts(entries)) is Some,
        reconcile_run(cr, encoded_key, missing, World { cluster, vault: Some(entries) }) == (
            World {
                cluster: cluster_data_of(crate::vault::stored_texts(entries)),
                vault: Some(entries),
            },
            ActionView::Requeue,
        ),
{
    let stored = crate::vault::stored_texts(entries);
    assert(forall|i: int| 0 <= i < stored.len() ==> (#[trigger] stored[i].1) is Some);
    let world = World { cluster, vault: Some(entries) };
    let (s1, a1) = reconcile_step_spec(cr, ReconcileStateView::Init, EventView::Start { encoded_key });
    assert(a1 is Lookup);
    lemma_vault_copy_wins(
        cr,
        key,
        cr.metadata.namespace->0,
        cr.metadata.name->0,
        cluster_seen(world),
        stored,
    );
}

/// From a world where neither the cluster nor Vault holds the secret, and where every value
/// of the resource unseals under the controller's key (as every value sealed for it does,
/// by `lemma_unseal_inverts_seal`), reconciles converge: the first
/// creates the secret in the cluster with the plaintexts and succeeds; the second pushes
/// them to Vault as strings and fails (the read of Vault failed); the third finds both
/// stores holding the plaintexts, leaves them so, and succeeds, and so does every later one.
pub proof fn lemma_sealed_resource_converges(
    cr: SyncedSecretView,
    encoded_key: Seq<char>,
    key: Seq<u8>,
    missing: Seq<char>,
    plaintexts: Seq<Seq<char>>,
)
    requires
        reconcilable(cr, encoded_key, key),
        plaintexts.len() == cr.spec.data.len(),
        forall|i: int|
            0 <= i < plaintexts.len() ==> crate::sealing::unsealed(key, cr.spec.data[i].1) == Some(
                #[trigger] plaintexts[i],
            ),
    ensures
        ({
            let bytes = Seq::new(
                plaintexts.len(),
                |i: int| (cr.spec.data[i].0, vstd::utf8::encode_utf8(plaintexts[i])),
            );
            let texts = Seq::new(plaintexts.len(), |i: int| (cr.spec.data[i].0, plaintexts[i]));
            let (w1, o1) = reconcile_run(cr, encoded_key, missing, World { cluster: None, vault: None });
            let (w2, o2) = reconcile_run(cr, encoded_key, missing, w1);
            let (w3, o3) = reconcile_run(cr, encoded_key, missing, w2);
            &&& w1 == World { cluster: Some(bytes), vault: None }
            &&& o1 is Requeue
            &&& w2 == World { cluster: Some(bytes), vault: Some(texts) }
            &&& o2 is Fail
            &&& w3 == w2
            &&& o3 is Requeue
            &&& forall|cluster: Option<Seq<(Seq<char>, Seq<u8>)>>|
                #![trigger reconcile_run(cr, encoded_key, missing, World { cluster, vault: Some(texts) })]
                cluster == Some(bytes) ==> reconcile_run(
                    cr,
                    encoded_key,
                    missing,
                    World { cluster, vault: Some(texts) },
                ) == (w2, ActionView::Requeue)
        }),
{
    let namespace = cr.metadata.namespace->0;
    let name = cr.metadata.name->0;
    let bytes = Seq::new(
        plaintexts.len(),
        |i: int| (cr.spec.data[i].0, vstd::utf8::encode_utf8(plaintexts[i])),
    );
    let texts = Seq::new(plaintexts.len(), |i: int| (cr.spec.data[i].0, plaintexts[i]));
    let w0 = World { cluster: None, vault: None };
    // First reconcile: nothing anywhere, so the secret is created from the sealed values.
    lemma_created_from_unsealed_values(cr, key, namespace, name, Err(missing), plaintexts);
    let (w1, o1) = reconcile_run(cr, encoded_key, missing, w0);
    assert(w1 == World { cluster: Some(bytes), vault: None });
    // Second reconcile: the cluster has it, Vault does not, so it is pushed.
    assert(payload_of(bytes) == Some(texts)) by {
        assert forall|i: int| 0 <= i < bytes.len() implies vstd::utf8::valid_utf8(#[trigger] bytes[i].1) by {
            vstd::utf8::encode_utf8_valid_utf8(plaintexts[i]);
        }
        assert forall|i: int| 0 <= i < bytes.len() implies vstd::utf8::decode_utf8(#[trigger] bytes[i].1)
            == plaintexts[i] by {
            vstd::utf8::encode_utf8_decode_utf8(plaintexts[i]);
        }
        assert(payload_of(bytes)->0 =~= texts);
    }
    lemma_cluster_secret_pushed_and_left_alone(
        cr,
        key,
        namespace,
        name,
        bytes,
        Err(missing),
        EventView::Pushed { result: Ok(()) },
    );
    let (w2, o2) = reconcile_run(cr, encoded_key, missing, w1);
    assert(w2 == World { cluster: Some(bytes), vault: Some(texts) });
    // Third and later reconciles: Vault's copy is applied, which is what the cluster holds.
    assert(cluster_data_of(crate::vault::stored_texts(texts)) == Some(bytes)) by {
        crate::vault::lemma_push_then_pull(bytes);
    }
    lemma_vault_copy_is_fixed_point(cr, encoded_key, key, missing, texts, Some(bytes));
    assert forall|cluster: Option<Seq<(Seq<char>, Seq<u8>)>>|
        cluster == Some(bytes) implies #[trigger] reconcile_run(
            cr,
            encoded_key,
            missing,
            World { cluster, vault: Some(texts) },
        ) == (w2, ActionView::Requeue) by {
        lemma_vault_copy_is_fixed_point(cr, encoded_key, key, missing, texts, cluster);
    }
}

/// The Secret that any step writes into the cluster is named as the reconcile's secret,
/// carries no namespace and no uid of its own (the API server keeps the Secret's), and is
/// owned by the resource alone: one owner reference, of API version `njha.dev/v1` and kind
/// `SyncedSecret`, with the resource's name and uid. A write happens only for a resource
/// with a name and a uid.
pub proof fn lemma_written_secret_is_owned(
    cr: SyncedSecretView,
    state: ReconcileStateView,
    event: EventView,
)
    ensures
        ({
            let action = reconcile_step_spec(cr, state, event).1;
            let owner = OwnerReferenceView {
                api_version: "njha.dev/v1"@,
                kind: "SyncedSecret"@,
                name: cr.metadata.name->0,
                uid: cr.metadata.uid->0,
                controller: None,
                block_owner_deletion: None,
            };
            &&& action matches ActionView::ApplySecret { name, secret, .. } ==> {
                &&& cr.metadata.name is Some && cr.metadata.uid is Some
                &&& secret.metadata.name == Some(name)
                &&& secret.metadata.namespace is None
                &&& secret.metadata.uid is None
                &&& secret.metadata.owner_references == Some(seq![owner])
            }
            &&& action matches ActionView::CreateSecret { secret, .. } ==> {
                &&& cr.metadata.name is Some && cr.metadata.uid is Some
                &&& state matches ReconcileStateView::AwaitingLookup { name, .. }
                &&& secret.metadata.name == Some(name)
                &&& secret.metadata.namespace is None
                &&& secret.metadata.uid is None
                &&& secret.metadata.owner_references == Some(seq![owner])
            }
        }),
{
}

/// Where neither the cluster nor Vault has the secret, a single sealed value that does not
/// open under the controller's key stops the reconcile: nothing is written.
pub proof fn lemma_unopened_value_aborts(
    cr: SyncedSecretView,
    key: Seq<u8>,
    namespace: Seq<char>,
    name: Seq<char>,
    vault: Result<VaultDocumentView, Seq<char>>,
    i: int,
)
    requires
        vault_outcome(vault) is Err,
        0 <= i < cr.spec.data.len(),
        crate::sealing::unsealed(key, cr.spec.data[i].1) is None,
    ensures
        reconcile_step_spec(
            cr,
            ReconcileStateView::AwaitingLookup { key, namespace, name },
            EventView::Looked { cluster: ClusterSecretView::Missing, vault },
        ) == (ReconcileStateView::Done, ActionView::Abort { fault: FaultView::CannotUnseal }),
{
    crate::sealing::lemma_unsealed_entries_all_or_nothing(key, cr.spec.data);
}

} // verus!
