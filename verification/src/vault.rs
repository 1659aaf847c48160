use vstd::prelude::*;
use vstd::string::*;
use vstd::utf8::*;

use crate::encoding::{string_from_utf8, utf8_bytes};
use crate::error::{ControllerError, ControllerErrorView};
use crate::resource::{byte_entries_view, keys_distinct, text_entries_view};

verus! {

broadcast use {vstd::utf8::encode_utf8_valid_utf8, vstd::utf8::encode_utf8_decode_utf8};

/// A value stored under a key in Vault: a string, or any other JSON value.
#[derive(Debug, PartialEq, Eq)]
pub enum VaultValue {
    Text(String),
    Other,
}

/// What Vault holds at a secret's path: a JSON object, or some other JSON value.
#[derive(Debug, PartialEq, Eq)]
pub enum VaultDocument {
    Object(Vec<(String, VaultValue)>),
    Other,
}

/// A Vault value taken as its text, `None` where it is not a string.
pub open spec fn vault_value_view(v: VaultValue) -> Option<Seq<char>> {
    match v {
        VaultValue::Text(s) => Some(s@),
        VaultValue::Other => None,
    }
}

/// Vault entries, keys and string values taken as character sequences.
pub open spec fn vault_entries_view(entries: Seq<(String, VaultValue)>) -> Seq<
    (Seq<char>, Option<Seq<char>>),
> {
    entries.map_values(|e: (String, VaultValue)| (e.0@, vault_value_view(e.1)))
}

pub enum VaultDocumentView {
    Object(Seq<(Seq<char>, Option<Seq<char>>)>),
    Other,
}

impl View for VaultDocument {
    type V = VaultDocumentView;

    open spec fn view(&self) -> VaultDocumentView {
        match self {
            VaultDocument::Object(entries) => VaultDocumentView::Object(
                vault_entries_view(entries@),
            ),
            VaultDocument::Other => VaultDocumentView::Other,
        }
    }
}

/// The path in Vault under which a secret of a namespace is kept: `namespace/name`.
pub open spec fn vault_path_of(namespace: Seq<char>, name: Seq<char>) -> Seq<char> {
    namespace + "/"@ + name
}

/// The reason given when the path of a secret in Vault holds no object.
pub open spec fn not_an_object_reason() -> Seq<char> {
    "path in vault is not an object!"@
}

/// What a read of Vault yields: the entries of the object kept there, or an error where
/// Vault kept something else.
pub open spec fn entries_of_document(doc: VaultDocumentView) -> Result<
    Seq<(Seq<char>, Option<Seq<char>>)>,
    ControllerErrorView,
> {
    match doc {
        VaultDocumentView::Object(entries) => Ok(entries),
        VaultDocumentView::Other => Err(
            ControllerErrorView::ArcanumError { reason: not_an_object_reason() },
        ),
    }
}

/// What the cluster's secret data becomes in Vault: each value read as UTF-8 text, or
/// `None` where a value is not UTF-8.
pub open spec fn payload_of(data: Seq<(Seq<char>, Seq<u8>)>) -> Option<Seq<(Seq<char>, Seq<char>)>> {
    if forall|i: int| 0 <= i < data.len() ==> valid_utf8(#[trigger] data[i].1) {
        Some(data.map_values(|e: (Seq<char>, Seq<u8>)| (e.0, decode_utf8(e.1))))
    } else {
        None
    }
}

/// What Vault's entries become in the cluster: each string value as its UTF-8 bytes, or
/// `None` where a value is not a string.
pub open spec fn cluster_data_of(entries: Seq<(Seq<char>, Option<Seq<char>>)>) -> Option<
    Seq<(Seq<char>, Seq<u8>)>,
> {
    if forall|i: int| 0 <= i < entries.len() ==> (#[trigger] entries[i].1) is Some {
        Some(entries.map_values(|e: (Seq<char>, Option<Seq<char>>)| (e.0, encode_utf8(e.1->0))))
    } else {
        None
    }
}

/// Text entries as Vault keeps them: every value a string.
pub open spec fn stored_texts(payload: Seq<(Seq<char>, Seq<char>)>) -> Seq<
    (Seq<char>, Option<Seq<char>>),
> {
    payload.map_values(|e: (Seq<char>, Seq<char>)| (e.0, Some(e.1)))
}

/// Data pushed from the cluster to Vault comes back unchanged when it is pulled again.
pub proof fn lemma_push_then_pull(data: Seq<(Seq<char>, Seq<u8>)>)
    requires
        payload_of(data) is Some,
    ensures
        cluster_data_of(stored_texts(payload_of(data)->0)) == Some(data),
{
    let stored = stored_texts(payload_of(data)->0);
    assert forall|i: int| 0 <= i < data.len() implies encode_utf8(decode_utf8(data[i].1)) == data[i].1 by {
        assert(valid_utf8(data[i].1));
        vstd::utf8::decode_utf8_encode_utf8(data[i].1);
    }
    assert(forall|i: int| 0 <= i < stored.len() ==> (#[trigger] stored[i].1) is Some);
    assert(cluster_data_of(stored)->0 =~= data);
}

/// Entries pulled from Vault into the cluster go back to Vault unchanged when pushed again.
pub proof fn lemma_pull_then_push(entries: Seq<(Seq<char>, Option<Seq<char>>)>)
    requires
        cluster_data_of(entries) is Some,
    ensures
        payload_of(cluster_data_of(entries)->0) is Some,
        stored_texts(payload_of(cluster_data_of(entries)->0)->0) == entries,
{
    let data = cluster_data_of(entries)->0;
    assert(forall|i: int| 0 <= i < data.len() ==> valid_utf8(#[trigger] data[i].1));
    let back = stored_texts(payload_of(data)->0);
    assert forall|i: int| 0 <= i < entries.len() implies back[i] == entries[i] by {
        assert(entries[i].1 is Some);
    }
    assert(back =~= entries);
}

/// The Vault path of a secret is its namespace, a slash and its name, whatever their
/// lengths: the namespace is never dropped, so same-named secrets of different namespaces
/// (namespaces hold no slash) are kept apart.
pub proof fn lemma_vault_path_parts(namespace: Seq<char>, name: Seq<char>)
    ensures
        vault_path_of(namespace, name).len() == namespace.len() + 1 + name.len(),
        vault_path_of(namespace, name).subrange(0, namespace.len() as int) == namespace,
        vault_path_of(namespace, name)[namespace.len() as int] == '/',
        vault_path_of(namespace, name).subrange(
            namespace.len() + 1int,
            vault_path_of(namespace, name).len() as int,
        ) == name,
{
    reveal_strlit("/");
    let path = vault_path_of(namespace, name);
    assert(path.subrange(0, namespace.len() as int) =~= namespace);
    assert(path.subrange(namespace.len() + 1int, path.len() as int) =~= name);
}

/// Secrets of different namespaces, none of which holds a slash, are kept at different
/// Vault paths.
pub proof fn lemma_vault_paths_apart(ns1: Seq<char>, ns2: Seq<char>, name1: Seq<char>, name2: Seq<char>)
    requires
        ns1 != ns2,
        !ns1.contains('/'),
        !ns2.contains('/'),
    ensures
        vault_path_of(ns1, name1) != vault_path_of(ns2, name2),
{
    lemma_vault_path_parts(ns1, name1);
    lemma_vault_path_parts(ns2, name2);
    let p1 = vault_path_of(ns1, name1);
    let p2 = vault_path_of(ns2, name2);
    if p1 == p2 {
        if ns1.len() < ns2.len() {
            assert(p2[ns1.len() as int] == ns2[ns1.len() as int]);
            assert(ns2.contains('/'));
        } else if ns2.len() < ns1.len() {
            assert(p1[ns2.len() as int] == ns1[ns2.len() as int]);
            assert(ns1.contains('/'));
        } else {
            assert(ns1 =~= ns2) by {
                assert forall|i: int| 0 <= i < ns1.len() implies ns1[i] == ns2[i] by {
                    assert(p1.subrange(0, ns1.len() as int)[i] == ns1[i]);
                    assert(p2.subrange(0, ns2.len() as int)[i] == ns2[i]);
                }
            }
        }
    }
}

/// The path under which the secret `name` of `namespace` is kept in Vault.
pub fn vault_path(namespace: &str, name: &str) -> (r: String)
    ensures
        r@ == vault_path_of(namespace@, name@),
        r@.len() == namespace@.len() + 1 + name@.len(),
        r@.subrange(0, namespace@.len() as int) == namespace@,
        r@[namespace@.len() as int] == '/',
        r@.subrange(namespace@.len() + 1int, r@.len() as int) == name@,
{
    proof {
        lemma_vault_path_parts(namespace@, name@);
    }
    let path = namespace.to_owned();
    let path = path.concat("/");
    path.concat(name)
}

/// The entries of what Vault keeps at a secret's path, which must be an object.
pub fn entries_from_document(doc: VaultDocument) -> (r: Result<Vec<(String, VaultValue)>, ControllerError>)
    ensures
        match (r, entries_of_document(doc@)) {
            (Ok(entries), Ok(expected)) => vault_entries_view(entries@) == expected,
            (Err(e), Err(expected)) => e@ == expected,
            _ => false,
        },
{
    match doc {
        VaultDocument::Object(entries) => Ok(entries),
        VaultDocument::Other => Err(
            ControllerError::ArcanumError { reason: "path in vault is not an object!".to_owned() },
        ),
    }
}

/// The cluster's secret data as Vault is to keep it: each value read as UTF-8 text.
/// `None` where a value is not UTF-8.
pub fn vault_payload(data: &Vec<(String, Vec<u8>)>) -> (r: Option<Vec<(String, String)>>)
    ensures
        match (r, payload_of(byte_entries_view(data@))) {
            (Some(payload), Some(expected)) => text_entries_view(payload@) == expected,
            (None, None) => true,
            _ => false,
        },
        keys_distinct(byte_entries_view(data@)) ==> (r matches Some(payload) ==> keys_distinct(text_entries_view(payload@))),
{
    let ghost view = byte_entries_view(data@);
    let mut payload: Vec<(String, String)> = Vec::new();
    let mut i: usize = 0;
    while i < data.len()
        invariant
            i <= data@.len(),
            view == byte_entries_view(data@),
            payload@.len() == i,
            forall|j: int| 0 <= j < i ==> valid_utf8(#[trigger] view[j].1),
            forall|j: int|
                0 <= j < i ==> (#[trigger] payload@[j]).0@ == view[j].0 && payload@[j].1@
                    == decode_utf8(view[j].1),
        decreases data@.len() - i,
    {
        let key = data[i].0.clone();
        let bytes = vstd::slice::slice_to_vec(data[i].1.as_slice());
        match string_from_utf8(bytes) {
            Ok(text) => {
                payload.push((key, text));
            },
            Err(_) => {
                assert(!valid_utf8(view[i as int].1));
                return None;
            },
        }
        i = i + 1;
    }
    let ghost expected = payload_of(view)->0;
    assert(text_entries_view(payload@) =~= expected);
    assert(keys_distinct(view) ==> keys_distinct(text_entries_view(payload@))) by {
        if keys_distinct(view) {
            assert forall|a: int, b: int| 0 <= a < b < payload@.len() implies #[trigger] text_entries_view(payload@)[a].0 != #[trigger] text_entries_view(payload@)[b].0 by {
                assert(view[a].0 != view[b].0);
            }
        }
    }
    Some(payload)
}

/// Vault's entries as the cluster's secret data: each string value as its UTF-8 bytes.
/// `None` where a value is not a string.
pub fn cluster_data(entries: &Vec<(String, VaultValue)>) -> (r: Option<Vec<(String, Vec<u8>)>>)
    ensures
        match (r, cluster_data_of(vault_entries_view(entries@))) {
            (Some(data), Some(expected)) => byte_entries_view(data@) == expected,
            (None, None) => true,
            _ => false,
        },
        keys_distinct(vault_entries_view(entries@)) ==> (r matches Some(data) ==> keys_distinct(byte_entries_view(data@))),
{
    let ghost view = vault_entries_view(entries@);
    let mut data: Vec<(String, Vec<u8>)> = Vec::new();
    let mut i: usize = 0;
    while i < entries.len()
        invariant
            i <= entries@.len(),
            view == vault_entries_view(entries@),
            data@.len() == i,
            forall|j: int| 0 <= j < i ==> (#[trigger] view[j].1) is Some,
            forall|j: int|
                0 <= j < i ==> (#[trigger] data@[j]).0@ == view[j].0 && data@[j].1@ == encode_utf8(
                    view[j].1->0,
                ),
        decreases entries@.len() - i,
    {
        match &entries[i].1 {
            VaultValue::Text(text) => {
                let key = entries[i].0.clone();
                let bytes = utf8_bytes(text.as_str());
                data.push((key, bytes));
            },
            VaultValue::Other => {
                assert(view[i as int].1 is None);
                return None;
            },
        }
        i = i + 1;
    }
    let ghost expected = cluster_data_of(view)->0;
    assert(byte_entries_view(data@) =~= expected);
    assert(keys_distinct(view) ==> keys_distinct(byte_entries_view(data@))) by {
        if keys_distinct(view) {
            assert forall|a: int, b: int| 0 <= a < b < data@.len() implies #[trigger] byte_entries_view(data@)[a].0 != #[trigger] byte_entries_view(data@)[b].0 by {
                assert(view[a].0 != view[b].0);
            }
        }
    }
    Some(data)
}

} // verus!
