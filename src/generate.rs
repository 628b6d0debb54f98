use vstd::prelude::*;
use crate::error::KeyError;
use crate::key::{material_len, Key, KeyKind, KeyModel, Role};
use crate::naming::{check_name, check_revision, valid_name, valid_revision, NamedRevision};
use crate::text::concat2;

verus! {

/// The public and the secret key of `kind` named `name` at `revision`.
pub open spec fn pair_models(
    kind: KeyKind,
    name: Seq<char>,
    revision: Seq<char>,
    public: Seq<u8>,
    secret: Seq<u8>,
) -> (KeyModel, KeyModel) {
    (
        KeyModel { kind, role: Role::Public, name, revision, material: public },
        KeyModel { kind, role: Role::Secret, name, revision, material: secret },
    )
}

/// What generating a key pair of `kind` gives: `MalformedIdentifier` where the
/// name or the revision is not valid, else `InvalidKeyMaterial` where a half has
/// not the length the kind requires, else the two keys.
pub open spec fn pair_outcome(
    kind: KeyKind,
    name: Seq<char>,
    revision: Seq<char>,
    public: Seq<u8>,
    secret: Seq<u8>,
) -> Result<(KeyModel, KeyModel), KeyError> {
    if !(valid_name(name) && valid_revision(revision)) {
        Err(KeyError::MalformedIdentifier)
    } else if material_len(kind, Role::Public) != Some(public.len()) || material_len(
        kind,
        Role::Secret,
    ) != Some(secret.len()) {
        Err(KeyError::InvalidKeyMaterial)
    } else {
        Ok(pair_models(kind, name, revision, public, secret))
    }
}

pub open spec fn pair_result_view(r: Result<(Key, Key), KeyError>) -> Result<
    (KeyModel, KeyModel),
    KeyError,
> {
    match r {
        Ok((p, s)) => Ok((p@, s@)),
        Err(e) => Err(e),
    }
}

/// Builds the public and the secret key of an asymmetric `kind` from fresh
/// material, both with the same name and revision.
pub fn key_pair(kind: KeyKind, name: &str, revision: &str, public: Vec<u8>, secret: Vec<u8>) -> (r:
    Result<(Key, Key), KeyError>)
    requires
        kind != KeyKind::RingEncryption,
    ensures
        pair_result_view(r) == pair_outcome(kind, name@, revision@, public@, secret@),
{
    if !(check_name(name) && check_revision(revision)) {
        return Err(KeyError::MalformedIdentifier);
    }
    let public_nr = NamedRevision { name: String::from_str(name), revision: String::from_str(revision) };
    let secret_nr = NamedRevision { name: String::from_str(name), revision: String::from_str(revision) };
    let p = match Key::new(kind, Role::Public, public_nr, public) {
        Ok(k) => k,
        Err(e) => return Err(e),
    };
    let s = match Key::new(kind, Role::Secret, secret_nr, secret) {
        Ok(k) => k,
        Err(e) => return Err(e),
    };
    Ok((p, s))
}

/// A fresh origin signing key pair for `origin_name`; the caller draws the
/// material and stamps the revision.
pub fn generate_origin_signing_key_pair(
    origin_name: &str,
    revision: &str,
    public: Vec<u8>,
    secret: Vec<u8>,
) -> (r: Result<(Key, Key), KeyError>)
    ensures
        pair_result_view(r) == pair_outcome(
            KeyKind::OriginSigning,
            origin_name@,
            revision@,
            public@,
            secret@,
        ),
{
    key_pair(KeyKind::OriginSigning, origin_name, revision, public, secret)
}

/// The name of the service keys of `service_group` in `organization`:
/// `<organization>.<service_group>`.
pub open spec fn service_key_name(organization: Seq<char>, service_group: Seq<char>) -> Seq<char> {
    organization + seq!['.'] + service_group
}

/// A fresh service encryption key pair for `service_group` in `organization`,
/// named `<organization>.<service_group>`.
pub fn generate_service_encryption_key_pair(
    organization: &str,
    service_group: &str,
    revision: &str,
    public: Vec<u8>,
    secret: Vec<u8>,
) -> (r: Result<(Key, Key), KeyError>)
    ensures
        pair_result_view(r) == pair_outcome(
            KeyKind::ServiceEncryption,
            service_key_name(organization@, service_group@),
            revision@,
            public@,
            secret@,
        ),
{
    let name = concat2(organization, ".");
    let name = name.concat(service_group);
    proof {
        reveal_strlit(".");
        assert(name@ =~= service_key_name(organization@, service_group@));
    }
    key_pair(KeyKind::ServiceEncryption, name.as_str(), revision, public, secret)
}

/// A fresh user encryption key pair for `user_name`.
pub fn generate_user_key_pair(user_name: &str, revision: &str, public: Vec<u8>, secret: Vec<u8>) -> (r:
    Result<(Key, Key), KeyError>)
    ensures
        pair_result_view(r) == pair_outcome(
            KeyKind::UserEncryption,
            user_name@,
            revision@,
            public@,
            secret@,
        ),
{
    key_pair(KeyKind::UserEncryption, user_name, revision, public, secret)
}

/// A fresh symmetric ring key for `ring_name`: a single `Secret`.  Fails with
/// `MalformedIdentifier` where the name or the revision is not valid, else with
/// `InvalidKeyMaterial` where the material has not the length of a ring key.
pub fn generate_ring_key(ring_name: &str, revision: &str, material: Vec<u8>) -> (r: Result<
    Key,
    KeyError,
>)
    ensures
        !(valid_name(ring_name@) && valid_revision(revision@)) ==> r == Err::<Key, KeyError>(
            KeyError::MalformedIdentifier,
        ),
        valid_name(ring_name@) && valid_revision(revision@) && material_len(
            KeyKind::RingEncryption,
            Role::Secret,
        ) != Some(material@.len()) ==> r == Err::<Key, KeyError>(KeyError::InvalidKeyMaterial),
        valid_name(ring_name@) && valid_revision(revision@) && material_len(
            KeyKind::RingEncryption,
            Role::Secret,
        ) == Some(material@.len()) ==> (r matches Ok(k) && k@ == (KeyModel {
            kind: KeyKind::RingEncryption,
            role: Role::Secret,
            name: ring_name@,
            revision: revision@,
            material: material@,
        })),
{
    let nr = NamedRevision { name: String::from_str(ring_name), revision: String::from_str(revision) };
    Key::new(KeyKind::RingEncryption, Role::Secret, nr, material)
}

} // verus!
