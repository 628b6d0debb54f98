use vstd::prelude::*;
use rustc_serialize::base64::{FromBase64, ToBase64, STANDARD};
use crate::error::KeyError;
use crate::naming::{
    id_name, id_revision, identifier, is_identifier, lemma_identifier_parts, parse_named_revision,
    valid_name, valid_revision, NamedRevision,
};
use crate::text::{concat2, find_line_end, lemma_line_end, line_end, no_line_feed, text_eq};

verus! {

/// The cryptographic purpose of a key.
#[derive(Clone, Copy, Debug, PartialEq, Eq, Structural)]
pub enum KeyKind {
    /// Asymmetric: signs and verifies artifacts.
    OriginSigning,
    /// Asymmetric: encrypts payloads gossiped within one service group.
    ServiceEncryption,
    /// Symmetric: encrypts all traffic within a peer ring.
    RingEncryption,
    /// Asymmetric: lets an operator encrypt secrets for a service.
    UserEncryption,
}

/// Which half of a key a file holds; a symmetric key is a `Secret` only.
#[derive(Clone, Copy, Debug, PartialEq, Eq, Structural)]
pub enum Role {
    Public,
    Secret,
}

/// The length of the material of a key of `kind` and `role`, or `None` where
/// that kind has no such role.
pub open spec fn material_len(kind: KeyKind, role: Role) -> Option<nat> {
    match (kind, role) {
        (KeyKind::OriginSigning, Role::Public) => Some(32),
        (KeyKind::OriginSigning, Role::Secret) => Some(64),
        (KeyKind::RingEncryption, Role::Public) => None,
        (KeyKind::RingEncryption, Role::Secret) => Some(32),
        (_, _) => Some(32),
    }
}

/// The length of the material of a key of `kind` and `role`, if that kind has
/// such a role.
pub fn expected_material_len(kind: KeyKind, role: Role) -> (r: Option<usize>)
    ensures
        (r is Some) == (material_len(kind, role) is Some),
        r matches Some(n) ==> material_len(kind, role) == Some(n as nat),
{
    match (kind, role) {
        (KeyKind::OriginSigning, Role::Public) => Some(32),
        (KeyKind::OriginSigning, Role::Secret) => Some(64),
        (KeyKind::RingEncryption, Role::Public) => None,
        (KeyKind::RingEncryption, Role::Secret) => Some(32),
        (_, _) => Some(32),
    }
}

pub open spec fn kind_code(kind: KeyKind) -> Seq<char> {
    match kind {
        KeyKind::OriginSigning => seq!['S', 'I', 'G'],
        KeyKind::ServiceEncryption => seq!['S', 'V', 'C'],
        KeyKind::RingEncryption => seq!['S', 'Y', 'M'],
        KeyKind::UserEncryption => seq!['U', 'S', 'R'],
    }
}

pub open spec fn role_code(role: Role) -> Seq<char> {
    match role {
        Role::Public => seq!['P', 'U', 'B'],
        Role::Secret => seq!['S', 'E', 'C'],
    }
}

/// The format tag, first line of an envelope: `<KIND>-<ROLE>-1`, where 1 is the
/// version of the format.
pub open spec fn format_tag(kind: KeyKind, role: Role) -> Seq<char> {
    kind_code(kind) + seq!['-'] + role_code(role) + seq!['-', '1']
}

/// The kind and role that a tag line names, if it is the tag of a kind and a
/// role that go together.
pub open spec fn tag_kind_role(t: Seq<char>) -> Option<(KeyKind, Role)> {
    if exists|k: KeyKind, r: Role| material_len(k, r) is Some && format_tag(k, r) == t {
        Some(choose|k: KeyKind, r: Role| material_len(k, r) is Some && format_tag(k, r) == t)
    } else {
        None
    }
}

/// A key as a mathematical value: what contracts say of keys.
pub struct KeyModel {
    pub kind: KeyKind,
    pub role: Role,
    pub name: Seq<char>,
    pub revision: Seq<char>,
    pub material: Seq<u8>,
}

/// A key is valid when its kind has its role, its material has the length that
/// they require, and its name and revision are valid.
pub open spec fn key_model_wf(k: KeyModel) -> bool {
    &&& material_len(k.kind, k.role) == Some(k.material.len())
    &&& valid_name(k.name)
    &&& valid_revision(k.revision)
}

/// Base64 text of `b`, as rustc_serialize's standard configuration writes it.
pub uninterp spec fn base64_of(b: Seq<u8>) -> Seq<char>;

/// The bytes that rustc_serialize's base64 decoder reads from `s`, if it accepts it.
pub uninterp spec fn base64_decoded(s: Seq<char>) -> Option<Seq<u8>>;

/// Relies on rustc_serialize's `ToBase64::to_base64` with the `STANDARD`
/// configuration: padded RFC 4648 text without line wrapping, which `from_base64`
/// reads back into the same bytes.
#[verifier::external_body]
fn base64_encode(b: &Vec<u8>) -> (r: String)
    ensures
        r@ == base64_of(b@),
        no_line_feed(r@),
        base64_decoded(r@) == Some(b@),
{
    b.as_slice().to_base64(STANDARD)
}

/// Relies on rustc_serialize's `FromBase64::from_base64` on a `str`: the bytes
/// it decodes, or `None` where it reports an error.
#[verifier::external_body]
fn base64_decode(s: &str) -> (r: Option<Vec<u8>>)
    ensures
        (r is Some) == (base64_decoded(s@) is Some),
        r matches Some(v) ==> base64_decoded(s@) == Some(v@),
{
    s.from_base64().ok()
}

/// The armored envelope of a key:
/// tag line, identifier line, a blank line, then the base64 material line.
pub open spec fn armor(k: KeyModel) -> Seq<char> {
    format_tag(k.kind, k.role) + seq!['\n'] + identifier(k.name, k.revision) + seq!['\n', '\n']
        + base64_of(k.material) + seq!['\n']
}

/// What decoding the envelope `s` gives where a key of `ek` and `er` is
/// expected.  The checks come in order: the tag, then the kind and role it
/// names, then the identifier line, then the blank line and the material.
pub open spec fn decode_spec(s: Seq<char>, ek: KeyKind, er: Role) -> Result<KeyModel, KeyError> {
    let e1 = line_end(s, 0);
    match tag_kind_role(s.subrange(0, e1)) {
        None => Err(KeyError::UnknownFormat),
        Some((kind, role)) => {
            if kind != ek || role != er {
                Err(KeyError::KeyKindMismatch)
            } else if e1 >= s.len() {
                Err(KeyError::MalformedIdentifier)
            } else {
                let e2 = line_end(s, e1 + 1);
                let id = s.subrange(e1 + 1, e2);
                if !is_identifier(id) {
                    Err(KeyError::MalformedIdentifier)
                } else if !(e2 + 1 < s.len() && s[e2 + 1] == '\n') {
                    Err(KeyError::InvalidKeyMaterial)
                } else {
                    let e4 = line_end(s, e2 + 2);
                    if !(e4 == s.len() || e4 + 1 == s.len()) {
                        Err(KeyError::InvalidKeyMaterial)
                    } else {
                        match base64_decoded(s.subrange(e2 + 2, e4)) {
                            None => Err(KeyError::InvalidKeyMaterial),
                            Some(m) => {
                                if material_len(kind, role) == Some(m.len()) {
                                    Ok(
                                        KeyModel {
                                            kind,
                                            role,
                                            name: id_name(id),
                                            revision: id_revision(id),
                                            material: m,
                                        },
                                    )
                                } else {
                                    Err(KeyError::InvalidKeyMaterial)
                                }
                            },
                        }
                    }
                }
            }
        },
    }
}

pub proof fn lemma_format_tag_injective(k1: KeyKind, r1: Role, k2: KeyKind, r2: Role)
    requires
        format_tag(k1, r1) == format_tag(k2, r2),
    ensures
        k1 == k2,
        r1 == r2,
{
    let t1 = format_tag(k1, r1);
    let t2 = format_tag(k2, r2);
    assert(t1[0] == t2[0] && t1[1] == t2[1] && t1[4] == t2[4]);
}

/// The tag of a kind and a role that go together names them.
pub proof fn lemma_tag_kind_role(k: KeyKind, r: Role)
    requires
        material_len(k, r) is Some,
    ensures
        tag_kind_role(format_tag(k, r)) == Some((k, r)),
        no_line_feed(format_tag(k, r)),
        format_tag(k, r).len() == 9,
{
    let t = format_tag(k, r);
    assert(exists|k2: KeyKind, r2: Role| material_len(k2, r2) is Some && format_tag(k2, r2) == t)
        by {
        assert(material_len(k, r) is Some && format_tag(k, r) == t);
    }
    let (k2, r2) = choose|k2: KeyKind, r2: Role|
        material_len(k2, r2) is Some && format_tag(k2, r2) == t;
    lemma_format_tag_injective(k, r, k2, r2);
}

/// A key: its kind, its role, its identity and its material, which always fit
/// together.
#[derive(Debug, PartialEq, Eq)]
pub struct Key {
    kind: KeyKind,
    role: Role,
    named_revision: NamedRevision,
    material: Vec<u8>,
}

impl View for Key {
    type V = KeyModel;

    closed spec fn view(&self) -> KeyModel {
        KeyModel {
            kind: self.kind,
            role: self.role,
            name: self.named_revision.name@,
            revision: self.named_revision.revision@,
            material: self.material@,
        }
    }
}

impl Key {
    #[verifier::type_invariant]
    closed spec fn inv(&self) -> bool {
        key_model_wf(self@)
    }

    /// Builds a key; fails with `MalformedIdentifier` where the named revision is
    /// not valid, else with `InvalidKeyMaterial` where the kind has not the role
    /// or the material has not the length they require.
    pub fn new(kind: KeyKind, role: Role, named_revision: NamedRevision, material: Vec<u8>) -> (r:
        Result<Key, KeyError>)
        ensures
            !named_revision.wf() ==> r == Err::<Key, KeyError>(KeyError::MalformedIdentifier),
            named_revision.wf() && material_len(kind, role) != Some(material@.len())
                ==> r == Err::<Key, KeyError>(KeyError::InvalidKeyMaterial),
            named_revision.wf() && material_len(kind, role) == Some(material@.len()) ==> (
            r matches Ok(k) && k@ == (KeyModel {
                kind,
                role,
                name: named_revision.name@,
                revision: named_revision.revision@,
                material: material@,
            })),
    {
        if !(crate::naming::check_name(named_revision.name.as_str())
            && crate::naming::check_revision(named_revision.revision.as_str())) {
            return Err(KeyError::MalformedIdentifier);
        }
        match expected_material_len(kind, role) {
            Some(n) => {
                if material.len() == n {
                    Ok(Key { kind, role, named_revision, material })
                } else {
                    Err(KeyError::InvalidKeyMaterial)
                }
            },
            None => Err(KeyError::InvalidKeyMaterial),
        }
    }

    pub fn kind(&self) -> (r: KeyKind)
        ensures
            r == self@.kind,
    {
        self.kind
    }

    pub fn role(&self) -> (r: Role)
        ensures
            r == self@.role,
    {
        self.role
    }

    pub fn named_revision(&self) -> (r: &NamedRevision)
        ensures
            r.name@ == self@.name,
            r.revision@ == self@.revision,
            key_model_wf(self@),
    {
        proof {
            use_type_invariant(self);
        }
        &self.named_revision
    }

    pub fn material(&self) -> (r: &Vec<u8>)
        ensures
            r@ == self@.material,
            key_model_wf(self@),
    {
        proof {
            use_type_invariant(self);
        }
        &self.material
    }

    /// Whether `self` and `other` hold the same material, byte for byte.
    pub fn same_material(&self, other: &Key) -> (r: bool)
        ensures
            r == (self@.material == other@.material),
    {
        let n = self.material.len();
        if n != other.material.len() {
            return false;
        }
        let mut i: usize = 0;
        while i < n
            invariant
                n == self.material@.len(),
                n == other.material@.len(),
                i <= n,
                forall|j: int| 0 <= j < i ==> self.material@[j] == other.material@[j],
            decreases n - i,
        {
            if self.material[i] != other.material[i] {
                return false;
            }
            i = i + 1;
        }
        assert(self.material@ =~= other.material@);
        true
    }

    /// The armored envelope of the key, which decodes back to the same key.
    pub fn encode(&self) -> (r: String)
        ensures
            r@ == armor(self@),
            decode_spec(r@, self@.kind, self@.role) == Ok::<KeyModel, KeyError>(self@),
    {
        proof {
            use_type_invariant(self);
        }
        let tag = format_tag_text(self.kind, self.role);
        let s = concat2(tag.as_str(), "\n");
        let id = self.named_revision.to_identifier();
        let s = s.concat(id.as_str());
        let s = s.concat("\n\n");
        let b64 = base64_encode(&self.material);
        let s = s.concat(b64.as_str());
        let s = s.concat("\n");
        proof {
            reveal_strlit("\n");
            reveal_strlit("\n\n");
            assert(s@ =~= armor(self@));
            lemma_armor_decodes(self@);
        }
        s
    }
}

/// The view of a decoding result.
pub open spec fn key_result_view(r: Result<Key, KeyError>) -> Result<KeyModel, KeyError> {
    match r {
        Ok(k) => Ok(k@),
        Err(e) => Err(e),
    }
}

/// The envelope of a valid key decodes back to that key.
proof fn lemma_armor_decodes(k: KeyModel)
    requires
        key_model_wf(k),
        no_line_feed(base64_of(k.material)),
        base64_decoded(base64_of(k.material)) == Some(k.material),
    ensures
        decode_spec(armor(k), k.kind, k.role) == Ok::<KeyModel, KeyError>(k),
{
    let s = armor(k);
    let tag = format_tag(k.kind, k.role);
    let id = identifier(k.name, k.revision);
    let b = base64_of(k.material);
    lemma_tag_kind_role(k.kind, k.role);
    lemma_identifier_parts(k.name, k.revision);
    let e1 = tag.len() as int;
    let e2 = e1 + 1 + id.len();
    let e4 = e2 + 2 + b.len();
    assert(no_line_feed(id)) by {
        assert forall|i: int| 0 <= i < id.len() implies id[i] != '\n' by {
            if i < k.name.len() {
                assert(id[i] == k.name[i]);
            } else if i > k.name.len() {
                assert(id[i] == k.revision[i - k.name.len() - 1]);
            }
        }
    }
    assert(s.subrange(0, e1) =~= tag);
    assert(s.subrange(e1 + 1, e2) =~= id);
    assert(s.subrange(e2 + 2, e4) =~= b);
    assert forall|i: int| 0 <= i < e1 implies s[i] != '\n' by {
        assert(s[i] == tag[i]);
    }
    lemma_line_end(s, 0, e1);
    assert forall|i: int| e1 + 1 <= i < e2 implies s[i] != '\n' by {
        assert(s[i] == id[i - e1 - 1]);
    }
    lemma_line_end(s, e1 + 1, e2);
    assert forall|i: int| e2 + 2 <= i < e4 implies s[i] != '\n' by {
        assert(s[i] == b[i - e2 - 2]);
    }
    lemma_line_end(s, e2 + 2, e4);
}

pub fn kind_code_text(kind: KeyKind) -> (r: &'static str)
    ensures
        r@ == kind_code(kind),
{
    match kind {
        KeyKind::OriginSigning => {
            proof {
                reveal_strlit("SIG");
            }
            "SIG"
        },
        KeyKind::ServiceEncryption => {
            proof {
                reveal_strlit("SVC");
            }
            "SVC"
        },
        KeyKind::RingEncryption => {
            proof {
                reveal_strlit("SYM");
            }
            "SYM"
        },
        KeyKind::UserEncryption => {
            proof {
                reveal_strlit("USR");
            }
            "USR"
        },
    }
}

pub fn role_code_text(role: Role) -> (r: &'static str)
    ensures
        r@ == role_code(role),
{
    match role {
        Role::Public => {
            proof {
                reveal_strlit("PUB");
            }
            "PUB"
        },
        Role::Secret => {
            proof {
                reveal_strlit("SEC");
            }
            "SEC"
        },
    }
}

/// The format tag line of a key of `kind` and `role`.
pub fn format_tag_text(kind: KeyKind, role: Role) -> (r: String)
    ensures
        r@ == format_tag(kind, role),
{
    let s = concat2(kind_code_text(kind), "-");
    let s = s.concat(role_code_text(role));
    let s = s.concat("-1");
    proof {
        reveal_strlit("-");
        reveal_strlit("-1");
        assert(s@ =~= format_tag(kind, role));
    }
    s
}

/// The kind and role that a tag line names, if any.
pub fn parse_format_tag(line: &str) -> (r: Option<(KeyKind, Role)>)
    ensures
        r == tag_kind_role(line@),
{
    let kinds = [
        KeyKind::OriginSigning,
        KeyKind::ServiceEncryption,
        KeyKind::RingEncryption,
        KeyKind::UserEncryption,
    ];
    let mut i: usize = 0;
    while i < 4
        invariant
            i <= 4,
            kinds@ == seq![
                KeyKind::OriginSigning,
                KeyKind::ServiceEncryption,
                KeyKind::RingEncryption,
                KeyKind::UserEncryption,
            ],
            forall|j: int, r: Role|
                0 <= j < i && material_len(kinds@[j], r) is Some ==> format_tag(kinds@[j], r)
                    != line@,
        decreases 4 - i,
    {
        let k = kinds[i];
        if expected_material_len(k, Role::Public).is_some() && text_eq(
            line,
            format_tag_text(k, Role::Public).as_str(),
        ) {
            proof {
                lemma_tag_kind_role(k, Role::Public);
            }
            return Some((k, Role::Public));
        }
        if text_eq(line, format_tag_text(k, Role::Secret).as_str()) {
            proof {
                lemma_tag_kind_role(k, Role::Secret);
            }
            return Some((k, Role::Secret));
        }
        i = i + 1;
    }
    proof {
        if tag_kind_role(line@) is Some {
            let (k, r) = choose|k: KeyKind, r: Role|
                material_len(k, r) is Some && format_tag(k, r) == line@;
            match k {
                KeyKind::OriginSigning => assert(kinds@[0] == k),
                KeyKind::ServiceEncryption => assert(kinds@[1] == k),
                KeyKind::RingEncryption => assert(kinds@[2] == k),
                KeyKind::UserEncryption => assert(kinds@[3] == k),
            }
        }
    }
    None
}

/// Decodes an armored envelope where a key of `expected_kind` and
/// `expected_role` is expected; see `decode_spec` for the checks and the
/// failure of each.
pub fn decode(text: &str, expected_kind: KeyKind, expected_role: Role) -> (r: Result<
    Key,
    KeyError,
>)
    ensures
        key_result_view(r) == decode_spec(text@, expected_kind, expected_role),
{
    let n = text.unicode_len();
    let e1 = find_line_end(text, 0);
    let (kind, role) = match parse_format_tag(text.substring_char(0, e1)) {
        None => return Err(KeyError::UnknownFormat),
        Some(kr) => kr,
    };
    if kind != expected_kind || role != expected_role {
        return Err(KeyError::KeyKindMismatch);
    }
    if e1 >= n {
        return Err(KeyError::MalformedIdentifier);
    }
    let e2 = find_line_end(text, e1 + 1);
    let named_revision = match parse_named_revision(text.substring_char(e1 + 1, e2)) {
        Err(e) => return Err(e),
        Ok(nr) => nr,
    };
    if !(e2 < n && e2 + 1 < n && text.get_char(e2 + 1) == '\n') {
        return Err(KeyError::InvalidKeyMaterial);
    }
    let e4 = find_line_end(text, e2 + 2);
    if !(e4 == n || e4 + 1 == n) {
        return Err(KeyError::InvalidKeyMaterial);
    }
    let material = match base64_decode(text.substring_char(e2 + 2, e4)) {
        None => return Err(KeyError::InvalidKeyMaterial),
        Some(m) => m,
    };
    Key::new(kind, role, named_revision, material)
}

/// An envelope whose tag names another kind or role than the one expected is
/// refused with `KeyKindMismatch`, whatever follows the tag line.
pub proof fn lemma_kind_mismatch_rejected(
    kind: KeyKind,
    role: Role,
    rest: Seq<char>,
    expected_kind: KeyKind,
    expected_role: Role,
)
    requires
        material_len(kind, role) is Some,
        kind != expected_kind || role != expected_role,
    ensures
        decode_spec(format_tag(kind, role) + seq!['\n'] + rest, expected_kind, expected_role)
            == Err::<KeyModel, KeyError>(KeyError::KeyKindMismatch),
{
    let t = format_tag(kind, role);
    let s = t + seq!['\n'] + rest;
    lemma_tag_kind_role(kind, role);
    assert forall|i: int| 0 <= i < t.len() implies s[i] != '\n' by {
        assert(s[i] == t[i]);
    }
    lemma_line_end(s, 0, t.len() as int);
    assert(s.subrange(0, t.len() as int) =~= t);
}

} // verus!
