use vstd::prelude::*;
use crate::error::KeyError;
use crate::key::{armor, decode, decode_spec, key_model_wf, Key, KeyKind, KeyModel, Role};
use crate::naming::{
    check_revision, digits_value, identifier, lemma_revision_order, revision_value, text_less, valid_revision, NamedRevision,
    REVISION_LEN,
};
use crate::text::{concat2, text_eq};

verus! {

pub open spec fn kind_ext(kind: KeyKind) -> Seq<char> {
    match kind {
        KeyKind::OriginSigning => seq!['s', 'i', 'g'],
        KeyKind::ServiceEncryption => seq!['s', 'v', 'c'],
        KeyKind::RingEncryption => seq!['s', 'y', 'm'],
        KeyKind::UserEncryption => seq!['u', 's', 'r'],
    }
}

pub open spec fn role_ext(role: Role) -> Seq<char> {
    match role {
        Role::Public => seq!['p', 'u', 'b'],
        Role::Secret => seq!['k', 'e', 'y'],
    }
}

/// The extension of the files of keys of `kind` and `role`: `.<kind>.<role>`.
pub open spec fn file_suffix(kind: KeyKind, role: Role) -> Seq<char> {
    seq!['.'] + kind_ext(kind) + seq!['.'] + role_ext(role)
}

/// The file name of a key under the cache root: `<name>-<revision>.<kind>.<role>`.
pub open spec fn key_file_name_spec(kind: KeyKind, role: Role, name: Seq<char>, revision: Seq<char>) -> Seq<char> {
    identifier(name, revision) + file_suffix(kind, role)
}

/// The revision of the key of `kind`, `role` and `name` whose file is named
/// `f`, if `f` names such a key.
pub open spec fn file_revision(f: Seq<char>, kind: KeyKind, role: Role, name: Seq<char>) -> Option<Seq<char>> {
    let start = name.len() + 1;
    if f.len() == name.len() + 1 + REVISION_LEN + 8 && valid_revision(
        f.subrange(start as int, start + REVISION_LEN),
    ) && f == key_file_name_spec(kind, role, name, f.subrange(start as int, start + REVISION_LEN)) {
        Some(f.subrange(start as int, start + REVISION_LEN))
    } else {
        None
    }
}

/// The permission bits of a key file of `role`: owner read and write only for a
/// secret, and readable by everyone for a public key.
pub open spec fn file_mode_spec(role: Role) -> u32 {
    match role {
        Role::Secret => 0o600,
        Role::Public => 0o644,
    }
}

/// The permission bits that a key file of `role` is created with.
pub fn file_mode(role: Role) -> (r: u32)
    ensures
        r == file_mode_spec(role),
{
    match role {
        Role::Secret => 0o600,
        Role::Public => 0o644,
    }
}

/// A secret key file grants nothing to group or others; a public one lets
/// others read it.
pub proof fn lemma_file_mode_permissions(role: Role)
    ensures
        role == Role::Secret ==> file_mode_spec(role) % 64 == 0,
        role == Role::Public ==> (file_mode_spec(role) % 8) / 4 == 1 && (file_mode_spec(role) / 8 % 8) / 4 == 1,
        file_mode_spec(role) / 64 == 6,
{
}

fn kind_ext_text(kind: KeyKind) -> (r: &'static str)
    ensures
        r@ == kind_ext(kind),
{
    match kind {
        KeyKind::OriginSigning => {
            proof {
                reveal_strlit("sig");
            }
            "sig"
        },
        KeyKind::ServiceEncryption => {
            proof {
                reveal_strlit("svc");
            }
            "svc"
        },
        KeyKind::RingEncryption => {
            proof {
                reveal_strlit("sym");
            }
            "sym"
        },
        KeyKind::UserEncryption => {
            proof {
                reveal_strlit("usr");
            }
            "usr"
        },
    }
}

fn role_ext_text(role: Role) -> (r: &'static str)
    ensures
        r@ == role_ext(role),
{
    match role {
        Role::Public => {
            proof {
                reveal_strlit("pub");
            }
            "pub"
        },
        Role::Secret => {
            proof {
                reveal_strlit("key");
            }
            "key"
        },
    }
}

/// The extension of the files of keys of `kind` and `role`.
pub fn file_suffix_text(kind: KeyKind, role: Role) -> (r: String)
    ensures
        r@ == file_suffix(kind, role),
{
    let s = concat2(".", kind_ext_text(kind));
    let s = s.concat(".");
    let s = s.concat(role_ext_text(role));
    proof {
        reveal_strlit(".");
        assert(s@ =~= file_suffix(kind, role));
    }
    s
}

/// The file name of the key of `kind`, `role` and `named_revision`.
pub fn key_file_name(kind: KeyKind, role: Role, named_revision: &NamedRevision) -> (r: String)
    ensures
        r@ == key_file_name_spec(kind, role, named_revision.name@, named_revision.revision@),
{
    let id = named_revision.to_identifier();
    let suffix = file_suffix_text(kind, role);
    concat2(id.as_str(), suffix.as_str())
}

/// The revision of the key of `kind`, `role` and `name` whose file is named `f`,
/// if `f` names such a key; other files are passed over.
pub fn revision_of_file(f: &str, kind: KeyKind, role: Role, name: &str) -> (r: Option<String>)
    ensures
        r matches Some(rv) ==> file_revision(f@, kind, role, name@) == Some(rv@),
        r is None ==> file_revision(f@, kind, role, name@) is None,
{
    let n = name.unicode_len();
    let len = f.unicode_len();
    if n > len || len - n != 1 + REVISION_LEN + 8 {
        return None;
    }
    let start = n + 1;
    let revision = f.substring_char(start, start + REVISION_LEN);
    if !check_revision(revision) {
        return None;
    }
    let expected = concat2(name, "-");
    let expected = expected.concat(revision);
    let suffix = file_suffix_text(kind, role);
    let expected = expected.concat(suffix.as_str());
    proof {
        reveal_strlit("-");
        assert(expected@ =~= key_file_name_spec(kind, role, name@, revision@));
    }
    if text_eq(f, expected.as_str()) {
        Some(String::from_str(revision))
    } else {
        None
    }
}

/// Of the files named in `file_names`, picks the key of `kind`, `role` and
/// `name` with the greatest revision, by value and so as a string; `None` where
/// there is no such file.  Unrelated and malformed file names are passed over.
pub fn select_latest(kind: KeyKind, role: Role, name: &str, file_names: &Vec<String>) -> (r: Option<
    NamedRevision,
>)
    ensures
        (r is None) == (forall|i: int|
            0 <= i < file_names@.len() ==> file_revision(file_names@[i]@, kind, role, name@) is None),
        r matches Some(nr) ==> {
            &&& nr.name@ == name@
            &&& exists|i: int|
                0 <= i < file_names@.len() && file_revision(file_names@[i]@, kind, role, name@)
                    == Some(nr.revision@)
            &&& forall|i: int|
                0 <= i < file_names@.len() ==> (#[trigger] file_revision(file_names@[i]@, kind, role, name@) matches Some(rv)
                    ==> digits_value(rv) <= digits_value(nr.revision@) && !text_less(nr.revision@, rv))
        },
{
    let mut best: Option<String> = None;
    let mut best_value: u64 = 0;
    let mut i: usize = 0;
    while i < file_names.len()
        invariant
            i <= file_names@.len(),
            (best is None) == (forall|j: int|
                0 <= j < i ==> file_revision(file_names@[j]@, kind, role, name@) is None),
            best matches Some(b) ==> {
                &&& valid_revision(b@)
                &&& best_value == digits_value(b@)
                &&& exists|j: int|
                    0 <= j < i && file_revision(file_names@[j]@, kind, role, name@) == Some(b@)
                &&& forall|j: int|
                    0 <= j < i ==> (#[trigger] file_revision(file_names@[j]@, kind, role, name@) matches Some(rv)
                        ==> digits_value(rv) <= best_value)
            },
        decreases file_names@.len() - i,
    {
        match revision_of_file(file_names[i].as_str(), kind, role, name) {
            None => {},
            Some(rv) => {
                let v = revision_value(rv.as_str());
                if best.is_none() || v > best_value {
                    best = Some(rv);
                    best_value = v;
                }
            },
        }
        i = i + 1;
    }
    match best {
        None => None,
        Some(b) => {
            proof {
                assert forall|i: int| 0 <= i < file_names@.len() implies (#[trigger] file_revision(
                    file_names@[i]@,
                    kind,
                    role,
                    name@,
                ) matches Some(rv) ==> !text_less(b@, rv)) by {
                    if let Some(rv) = file_revision(file_names@[i]@, kind, role, name@) {
                        lemma_revision_order(b@, rv);
                    }
                }
            }
            Some(NamedRevision { name: String::from_str(name), revision: b })
        },
    }
}

/// What storing a key takes: nothing, where the same material is stored under
/// its name already, or the creation of a file.
#[derive(Debug, PartialEq, Eq)]
pub enum WritePlan {
    Unchanged,
    Create { file_name: String, contents: String, mode: u32 },
}

/// A cache directory, as a map from file names to contents.
pub type Directory = Map<Seq<char>, Seq<char>>;

/// Storing the key `k` in the directory `dir`: the outcome and the directory
/// after.  Where a file stands at the key's name, its material is compared:
/// the same material leaves all as it is, different material is refused, and a
/// file that does not decode is reported.  Else the envelope is written there.
pub open spec fn write_outcome(dir: Directory, k: KeyModel) -> (Result<(), KeyError>, Directory) {
    let f = key_file_name_spec(k.kind, k.role, k.name, k.revision);
    if dir.contains_key(f) {
        match decode_spec(dir[f], k.kind, k.role) {
            Err(e) => (Err(e), dir),
            Ok(stored) => {
                if stored.material == k.material {
                    (Ok(()), dir)
                } else {
                    (Err(KeyError::WouldOverwriteDifferentKey), dir)
                }
            },
        }
    } else {
        (Ok(()), dir.insert(f, armor(k)))
    }
}

/// Decides how to store `key`, given the contents of the file that stands at its
/// name, if any: see `write_outcome`.  A new file is created with the envelope of
/// the key and the permission bits of its role.
pub fn plan_write(existing: Option<&str>, key: &Key) -> (r: Result<WritePlan, KeyError>)
    ensures
        existing is None ==> (r matches Ok(WritePlan::Create { file_name, contents, mode }) && {
            &&& file_name@ == key_file_name_spec(key@.kind, key@.role, key@.name, key@.revision)
            &&& contents@ == armor(key@)
            &&& mode == file_mode_spec(key@.role)
            &&& decode_spec(contents@, key@.kind, key@.role) == Ok::<KeyModel, KeyError>(key@)
        }),
        existing matches Some(t) ==> match decode_spec(t@, key@.kind, key@.role) {
            Err(e) => r == Err::<WritePlan, KeyError>(e),
            Ok(stored) => if stored.material == key@.material {
                r matches Ok(WritePlan::Unchanged)
            } else {
                r == Err::<WritePlan, KeyError>(KeyError::WouldOverwriteDifferentKey)
            },
        },
{
    match existing {
        None => {
            let file_name = key_file_name(key.kind(), key.role(), key.named_revision());
            let contents = key.encode();
            Ok(WritePlan::Create { file_name, contents, mode: file_mode(key.role()) })
        },
        Some(t) => match decode(t, key.kind(), key.role()) {
            Err(e) => Err(e),
            Ok(stored) => {
                if stored.same_material(key) {
                    Ok(WritePlan::Unchanged)
                } else {
                    Err(KeyError::WouldOverwriteDifferentKey)
                }
            },
        },
    }
}

/// The key read from the file of a lookup: `KeyNotFound` where there is no such
/// file, else what decoding its contents gives.
pub fn fetched_key(contents: Option<&str>, kind: KeyKind, role: Role) -> (r: Result<Key, KeyError>)
    ensures
        contents is None ==> r == Err::<Key, KeyError>(KeyError::KeyNotFound),
        contents matches Some(t) ==> crate::key::key_result_view(r) == decode_spec(t@, kind, role),
{
    match contents {
        None => Err(KeyError::KeyNotFound),
        Some(t) => decode(t, kind, role),
    }
}

/// Storing a key a second time, with the same material and identity, succeeds
/// and changes nothing; the first store leaves exactly one file at the key's
/// name, with the contents it already had or with the key's envelope.  (Of the
/// key's envelope, `Key::encode` proves that it decodes back to the key.)
pub proof fn lemma_write_key_idempotent(dir: Directory, k: KeyModel)
    requires
        key_model_wf(k),
        decode_spec(armor(k), k.kind, k.role) == Ok::<KeyModel, KeyError>(k),
        write_outcome(dir, k).0 is Ok,
    ensures
        ({
            let f = key_file_name_spec(k.kind, k.role, k.name, k.revision);
            let after = write_outcome(dir, k).1;
            &&& write_outcome(after, k) == (Ok::<(), KeyError>(()), after)
            &&& after.dom() == dir.dom().insert(f)
            &&& after[f] == (if dir.contains_key(f) { dir[f] } else { armor(k) })
            &&& forall|g: Seq<char>| g != f && dir.contains_key(g) ==> after[g] == dir[g]
        }),
{
    let f = key_file_name_spec(k.kind, k.role, k.name, k.revision);
    if dir.contains_key(f) {
        assert(dir.dom().insert(f) =~= dir.dom());
    }
}

/// Storing a key under the identity of a stored key with other material fails
/// with `WouldOverwriteDifferentKey` and leaves the directory as it was.
pub proof fn lemma_write_key_conflict(dir: Directory, k: KeyModel, stored: KeyModel)
    requires
        dir.contains_key(key_file_name_spec(k.kind, k.role, k.name, k.revision)),
        decode_spec(dir[key_file_name_spec(k.kind, k.role, k.name, k.revision)], k.kind, k.role)
            == Ok::<KeyModel, KeyError>(stored),
        stored.material != k.material,
    ensures
        write_outcome(dir, k) == (Err::<(), KeyError>(KeyError::WouldOverwriteDifferentKey), dir),
{
}

/// `vals` is in ascending order, or in descending order where `descending`.
pub open spec fn in_order(vals: Seq<u64>, descending: bool) -> bool {
    forall|a: int, b: int|
        0 <= a < b < vals.len() ==> if descending {
            vals[a] >= vals[b]
        } else {
            vals[a] <= vals[b]
        }
}

/// Where the revision of value `v` goes before one of value `w` in the order.
pub open spec fn goes_before(v: u64, w: u64, descending: bool) -> bool {
    if descending {
        v > w
    } else {
        v < w
    }
}

/// The revisions of the key of `kind`, `role` and `name` among the files named in
/// `file_names`, as named revisions, in ascending order of revision or in
/// descending order where `descending`; other files are passed over.
pub fn list_revisions(
    kind: KeyKind,
    role: Role,
    name: &str,
    file_names: &Vec<String>,
    descending: bool,
) -> (r: Vec<NamedRevision>)
    ensures
        forall|i: int|
            0 <= i < r@.len() ==> {
                &&& (#[trigger] r@[i]).name@ == name@
                &&& exists|j: int|
                    0 <= j < file_names@.len() && file_revision(file_names@[j]@, kind, role, name@)
                        == Some(r@[i].revision@)
            },
        forall|j: int|
            0 <= j < file_names@.len() ==> (#[trigger] file_revision(file_names@[j]@, kind, role, name@) matches Some(rv)
                ==> exists|i: int| 0 <= i < r@.len() && r@[i].revision@ == rv),
        forall|a: int, b: int|
            0 <= a < b < r@.len() ==> if descending {
                digits_value(r@[a].revision@) >= digits_value(r@[b].revision@)
            } else {
                digits_value(r@[a].revision@) <= digits_value(r@[b].revision@)
            },
{
    let mut out: Vec<NamedRevision> = Vec::new();
    let mut vals: Vec<u64> = Vec::new();
    let mut j: usize = 0;
    while j < file_names.len()
        invariant
            j <= file_names@.len(),
            vals@.len() == out@.len(),
            in_order(vals@, descending),
            forall|i: int|
                0 <= i < out@.len() ==> {
                    &&& (#[trigger] out@[i]).name@ == name@
                    &&& vals@[i] == digits_value(out@[i].revision@)
                    &&& exists|k: int|
                        0 <= k < file_names@.len() && file_revision(file_names@[k]@, kind, role, name@)
                            == Some(out@[i].revision@)
                },
            forall|k: int|
                0 <= k < j ==> (#[trigger] file_revision(file_names@[k]@, kind, role, name@) matches Some(rv)
                    ==> exists|i: int| 0 <= i < out@.len() && out@[i].revision@ == rv),
        decreases file_names@.len() - j,
    {
        match revision_of_file(file_names[j].as_str(), kind, role, name) {
            None => {},
            Some(rv) => {
                let v = revision_value(rv.as_str());
                let mut p: usize = 0;
                while p < vals.len() && !goes_before_exec(v, vals[p], descending)
                    invariant
                        p <= vals@.len(),
                        forall|q: int| 0 <= q < p ==> !goes_before(v, #[trigger] vals@[q], descending),
                    decreases vals@.len() - p,
                {
                    p = p + 1;
                }
                let ghost old_out = out@;
                let ghost old_vals = vals@;
                let ghost rvv = rv@;
                vals.insert(p, v);
                out.insert(p, NamedRevision { name: String::from_str(name), revision: rv });
                proof {
                    assert(vals@ == old_vals.insert(p as int, v));
                    assert forall|a: int, b: int| 0 <= a < b < vals@.len() implies (if descending {
                        vals@[a] >= vals@[b]
                    } else {
                        vals@[a] <= vals@[b]
                    }) by {
                        if p < old_vals.len() && b > p as int {
                            assert(goes_before(v, old_vals[p as int], descending));
                        }
                    }
                    assert forall|i: int| 0 <= i < out@.len() implies {
                        &&& (#[trigger] out@[i]).name@ == name@
                        &&& vals@[i] == digits_value(out@[i].revision@)
                        &&& exists|k: int|
                            0 <= k < file_names@.len() && file_revision(file_names@[k]@, kind, role, name@)
                                == Some(out@[i].revision@)
                    } by {
                        if i < p {
                            assert(out@[i] == old_out[i]);
                        } else if i > p {
                            assert(out@[i] == old_out[i - 1]);
                        } else {
                            assert(file_revision(file_names@[j as int]@, kind, role, name@) == Some(rvv));
                        }
                    }
                    assert forall|k: int| 0 <= k < j + 1 implies (#[trigger] file_revision(file_names@[k]@, kind, role, name@) matches Some(rv2)
                        ==> exists|i: int| 0 <= i < out@.len() && out@[i].revision@ == rv2) by {
                        if k < j {
                            if let Some(rv2) = file_revision(file_names@[k]@, kind, role, name@) {
                                let i0 = choose|i: int| 0 <= i < old_out.len() && old_out[i].revision@ == rv2;
                                if i0 < p {
                                    assert(out@[i0] == old_out[i0]);
                                } else {
                                    assert(out@[i0 + 1] == old_out[i0]);
                                }
                            }
                        } else {
                            assert(out@[p as int].revision@ == rvv);
                        }
                    }
                }
            },
        }
        j = j + 1;
    }
    out
}

fn goes_before_exec(v: u64, w: u64, descending: bool) -> (r: bool)
    ensures
        r == goes_before(v, w, descending),
{
    if descending {
        v > w
    } else {
        v < w
    }
}

} // verus!
