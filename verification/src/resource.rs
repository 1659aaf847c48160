use vstd::prelude::*;

use crate::error::ControllerError;

verus! {

/// No key occurs twice among the entries (they stand for a map: the spec's and Vault's data
/// are maps from string keys, and so is a Secret's data).
pub open spec fn keys_distinct<V>(entries: Seq<(Seq<char>, V)>) -> bool {
    forall|i: int, j: int| 0 <= i < j < entries.len() ==> #[trigger] entries[i].0 != #[trigger] entries[j].0
}

/// Entries with the same keys, in the same order, as entries whose keys are distinct have
/// distinct keys too.
pub proof fn lemma_same_keys_distinct<A, B>(from: Seq<(Seq<char>, A)>, to: Seq<(Seq<char>, B)>)
    requires
        keys_distinct(from),
        to.len() == from.len(),
        forall|i: int| 0 <= i < to.len() ==> (#[trigger] to[i]).0 == from[i].0,
    ensures
        keys_distinct(to),
{
    assert forall|i: int, j: int| 0 <= i < j < to.len() implies #[trigger] to[i].0 != #[trigger] to[j].0 by {
        assert(from[i].0 != from[j].0);
    }
}

/// Key-value text entries, taken as character sequences.
pub open spec fn text_entries_view(entries: Seq<(String, String)>) -> Seq<(Seq<char>, Seq<char>)> {
    entries.map_values(|e: (String, String)| (e.0@, e.1@))
}

/// Key-value byte entries, keys taken as character sequences.
pub open spec fn byte_entries_view(entries: Seq<(String, Vec<u8>)>) -> Seq<(Seq<char>, Seq<u8>)> {
    entries.map_values(|e: (String, Vec<u8>)| (e.0@, e.1@))
}

/// A reference from a dependent object to the object that owns it.
#[derive(Debug, PartialEq, Eq)]
pub struct OwnerReference {
    pub api_version: String,
    pub kind: String,
    pub name: String,
    pub uid: String,
    pub controller: Option<bool>,
    pub block_owner_deletion: Option<bool>,
}

pub struct OwnerReferenceView {
    pub api_version: Seq<char>,
    pub kind: Seq<char>,
    pub name: Seq<char>,
    pub uid: Seq<char>,
    pub controller: Option<bool>,
    pub block_owner_deletion: Option<bool>,
}

impl View for OwnerReference {
    type V = OwnerReferenceView;

    open spec fn view(&self) -> OwnerReferenceView {
        OwnerReferenceView {
            api_version: self.api_version@,
            kind: self.kind@,
            name: self.name@,
            uid: self.uid@,
            controller: self.controller,
            block_owner_deletion: self.block_owner_deletion,
        }
    }
}

/// The metadata of a Kubernetes object that the controller reads or writes.
#[derive(Debug, PartialEq, Eq)]
pub struct ObjectMeta {
    pub name: Option<String>,
    pub namespace: Option<String>,
    pub uid: Option<String>,
    pub owner_references: Option<Vec<OwnerReference>>,
}

pub struct ObjectMetaView {
    pub name: Option<Seq<char>>,
    pub namespace: Option<Seq<char>>,
    pub uid: Option<Seq<char>>,
    pub owner_references: Option<Seq<OwnerReferenceView>>,
}

impl View for ObjectMeta {
    type V = ObjectMetaView;

    open spec fn view(&self) -> ObjectMetaView {
        ObjectMetaView {
            name: self.name.deep_view(),
            namespace: self.namespace.deep_view(),
            uid: self.uid.deep_view(),
            owner_references: match self.owner_references {
                Some(refs) => Some(refs@.map_values(|o: OwnerReference| o@)),
                None => None,
            },
        }
    }
}

impl OwnerReference {
    /// A copy of this reference.
    pub fn copy(&self) -> (r: OwnerReference)
        ensures
            r@ == self@,
    {
        OwnerReference {
            api_version: self.api_version.clone(),
            kind: self.kind.clone(),
            name: self.name.clone(),
            uid: self.uid.clone(),
            controller: self.controller,
            block_owner_deletion: self.block_owner_deletion,
        }
    }
}

/// A copy of an optional text.
fn copy_text(text: &Option<String>) -> (r: Option<String>)
    ensures
        r.deep_view() == text.deep_view(),
{
    match text {
        Some(t) => Some(t.clone()),
        None => None,
    }
}

impl ObjectMeta {
    /// A copy of this metadata.
    pub fn copy(&self) -> (r: ObjectMeta)
        ensures
            r@ == self@,
    {
        let owner_references = match &self.owner_references {
            None => None,
            Some(refs) => {
                let mut copied: Vec<OwnerReference> = Vec::new();
                let mut i: usize = 0;
                while i < refs.len()
                    invariant
                        i <= refs@.len(),
                        copied@.len() == i,
                        forall|j: int| 0 <= j < i ==> (#[trigger] copied@[j])@ == refs@[j]@,
                    decreases refs@.len() - i,
                {
                    copied.push(refs[i].copy());
                    i = i + 1;
                }
                assert(copied@.map_values(|o: OwnerReference| o@) =~= refs@.map_values(
                    |o: OwnerReference| o@,
                ));
                Some(copied)
            },
        };
        ObjectMeta {
            name: copy_text(&self.name),
            namespace: copy_text(&self.namespace),
            uid: copy_text(&self.uid),
            owner_references,
        }
    }
}

/// What a SyncedSecret asks for: its entries, each value sealed for the controller's key
/// and written in base64, and the public key that they were sealed for.
#[derive(Debug, PartialEq, Eq)]
pub struct SyncedSecretSpec {
    pub data: Vec<(String, String)>,
    pub pub_key: String,
}

pub struct SyncedSecretSpecView {
    pub data: Seq<(Seq<char>, Seq<char>)>,
    pub pub_key: Seq<char>,
}

impl View for SyncedSecretSpec {
    type V = SyncedSecretSpecView;

    open spec fn view(&self) -> SyncedSecretSpecView {
        SyncedSecretSpecView { data: text_entries_view(self.data@), pub_key: self.pub_key@ }
    }
}

/// An instant, as seconds since the Unix epoch and the nanoseconds past that second.
#[derive(Clone, Copy, Debug, PartialEq, Eq)]
pub struct Timestamp {
    pub secs: i64,
    pub nanos: u32,
}

/// The status of a SyncedSecret.
#[derive(Clone, Copy, Debug, PartialEq, Eq)]
pub struct SyncedSecretStatus {
    pub reconciled: Option<bool>,
    pub last_updated: Option<Timestamp>,
}

/// The custom resource that the controller watches (kind `SyncedSecret`, group `njha.dev`,
/// version `v1`, namespaced).
#[derive(Debug, PartialEq, Eq)]
pub struct SyncedSecret {
    pub metadata: ObjectMeta,
    pub spec: SyncedSecretSpec,
    pub status: Option<SyncedSecretStatus>,
}

pub struct SyncedSecretView {
    pub metadata: ObjectMetaView,
    pub spec: SyncedSecretSpecView,
    pub status: Option<SyncedSecretStatus>,
}

impl View for SyncedSecret {
    type V = SyncedSecretView;

    open spec fn view(&self) -> SyncedSecretView {
        SyncedSecretView { metadata: self.metadata@, spec: self.spec@, status: self.status }
    }
}

/// A Kubernetes Secret as the controller writes it.
#[derive(Debug, PartialEq, Eq)]
pub struct SecretObject {
    pub metadata: ObjectMeta,
    pub data: Option<Vec<(String, Vec<u8>)>>,
}

pub struct SecretObjectView {
    pub metadata: ObjectMetaView,
    pub data: Option<Seq<(Seq<char>, Seq<u8>)>>,
}

impl View for SecretObject {
    type V = SecretObjectView;

    open spec fn view(&self) -> SecretObjectView {
        SecretObjectView {
            metadata: self.metadata@,
            data: match self.data {
                Some(d) => Some(byte_entries_view(d@)),
                None => None,
            },
        }
    }
}

/// The API version of SyncedSecret.
pub fn synced_secret_api_version() -> (r: String)
    ensures
        r@ == "njha.dev/v1"@,
{
    "njha.dev/v1".to_owned()
}

/// The kind of SyncedSecret.
pub fn synced_secret_kind() -> (r: String)
    ensures
        r@ == "SyncedSecret"@,
{
    "SyncedSecret".to_owned()
}

/// The owner reference that points at an object of the given API version and kind.
pub open spec fn owner_reference_for(
    api_version: Seq<char>,
    kind: Seq<char>,
    meta: ObjectMetaView,
) -> OwnerReferenceView {
    OwnerReferenceView {
        api_version,
        kind,
        name: meta.name->0,
        uid: meta.uid->0,
        controller: None,
        block_owner_deletion: None,
    }
}

/// An owner reference to the object with this metadata, of the given API version and kind.
/// The object must have a name and a uid.
pub fn object_to_owner_reference(api_version: &str, kind: &str, meta: ObjectMeta) -> (r: Result<
    OwnerReference,
    ControllerError,
>)
    requires
        meta.name is Some,
        meta.uid is Some,
    ensures
        r matches Ok(o) && o@ == owner_reference_for(api_version@, kind@, meta@),
{
    let name = match meta.name {
        Some(n) => n,
        None => { proof { assert(false); } String::new() },
    };
    let uid = match meta.uid {
        Some(u) => u,
        None => { proof { assert(false); } String::new() },
    };
    Ok(
        OwnerReference {
            api_version: api_version.to_owned(),
            kind: kind.to_owned(),
            name,
            uid,
            controller: None,
            block_owner_deletion: None,
        },
    )
}

} // verus!
