use vstd::prelude::*;
use crate::error::KeyError;
use crate::text::{concat2, text_eq};

verus! {

/// The number of characters of a revision: `YYYYMMDDhhmmss`.
pub const REVISION_LEN: usize = 14;

pub open spec fn is_digit(c: char) -> bool {
    '0' <= c && c <= '9'
}

/// A revision is fixed-width: fourteen decimal digits, so that its order as a
/// string is its chronological order.
pub open spec fn valid_revision(r: Seq<char>) -> bool {
    r.len() == REVISION_LEN && forall|i: int| 0 <= i < r.len() ==> is_digit(r[i])
}

/// The characters a key name may not hold: path separators and line breaks.
pub open spec fn name_char_ok(c: char) -> bool {
    c != '/' && c != '\\' && c != '\n' && c != '\r'
}

/// A key name is non-empty and holds no path separator or line break.
pub open spec fn valid_name(n: Seq<char>) -> bool {
    n.len() > 0 && forall|i: int| 0 <= i < n.len() ==> name_char_ok(n[i])
}

/// The combined identifier `<name>-<revision>`.
pub open spec fn identifier(name: Seq<char>, revision: Seq<char>) -> Seq<char> {
    name + seq!['-'] + revision
}

/// The name part of a combined identifier: all before the last delimiter.
pub open spec fn id_name(s: Seq<char>) -> Seq<char> {
    s.subrange(0, s.len() - REVISION_LEN - 1)
}

/// The revision part of a combined identifier: all after the last delimiter.
pub open spec fn id_revision(s: Seq<char>) -> Seq<char> {
    s.subrange(s.len() - REVISION_LEN, s.len() as int)
}

/// `s` is `<name>-<revision>` for a valid name and a valid revision.  A revision
/// holds no delimiter, so the delimiter that parts them is the last one of `s`.
pub open spec fn is_identifier(s: Seq<char>) -> bool {
    &&& s.len() >= REVISION_LEN + 2
    &&& s[s.len() - REVISION_LEN - 1] == '-'
    &&& valid_name(id_name(s))
    &&& valid_revision(id_revision(s))
}

/// The numeric value of a string of decimal digits.
pub open spec fn digits_value(s: Seq<char>) -> nat
    decreases s.len(),
{
    if s.len() == 0 {
        0
    } else {
        digits_value(s.drop_last()) * 10 + (s.last() as nat - '0' as nat) as nat
    }
}

/// The identity of one generation of a key: its name and its revision.
#[derive(Clone, Debug, PartialEq, Eq)]
pub struct NamedRevision {
    pub name: String,
    pub revision: String,
}

impl NamedRevision {
    pub open spec fn wf(&self) -> bool {
        valid_name(self.name@) && valid_revision(self.revision@)
    }

    /// Builds a named revision, failing with `MalformedIdentifier` where the name
    /// or the revision is not valid.
    pub fn new(name: &str, revision: &str) -> (r: Result<NamedRevision, KeyError>)
        ensures
            (r is Ok) == (valid_name(name@) && valid_revision(revision@)),
            r matches Ok(nr) ==> nr.name@ == name@ && nr.revision@ == revision@,
            r matches Err(e) ==> e == KeyError::MalformedIdentifier,
    {
        if check_name(name) && check_revision(revision) {
            Ok(NamedRevision { name: String::from_str(name), revision: String::from_str(revision) })
        } else {
            Err(KeyError::MalformedIdentifier)
        }
    }

    pub fn name(&self) -> (r: &str)
        ensures
            r@ == self.name@,
    {
        self.name.as_str()
    }

    pub fn revision(&self) -> (r: &str)
        ensures
            r@ == self.revision@,
    {
        self.revision.as_str()
    }

    /// The combined identifier `<name>-<revision>`.
    pub fn to_identifier(&self) -> (r: String)
        ensures
            r@ == identifier(self.name@, self.revision@),
    {
        let s = concat2(self.name.as_str(), "-");
        proof {
            reveal_strlit("-");
        }
        s.concat(self.revision.as_str())
    }

    /// Whether `self` and `other` hold the same name and revision.
    pub fn same_as(&self, other: &NamedRevision) -> (r: bool)
        ensures
            r == (self.name@ == other.name@ && self.revision@ == other.revision@),
    {
        text_eq(self.name.as_str(), other.name.as_str()) && text_eq(
            self.revision.as_str(),
            other.revision.as_str(),
        )
    }
}

/// Whether `c` may stand in a key name.
pub fn check_name_char(c: char) -> (r: bool)
    ensures
        r == name_char_ok(c),
{
    c != '/' && c != '\\' && c != '\n' && c != '\r'
}

/// Whether `name` is a valid key name.
pub fn check_name(name: &str) -> (r: bool)
    ensures
        r == valid_name(name@),
{
    let n = name.unicode_len();
    if n == 0 {
        return false;
    }
    let mut i: usize = 0;
    while i < n
        invariant
            n == name@.len(),
            i <= n,
            forall|j: int| 0 <= j < i ==> name_char_ok(name@[j]),
        decreases n - i,
    {
        if !check_name_char(name.get_char(i)) {
            return false;
        }
        i = i + 1;
    }
    true
}

/// Whether `revision` is a valid revision.
pub fn check_revision(revision: &str) -> (r: bool)
    ensures
        r == valid_revision(revision@),
{
    let n = revision.unicode_len();
    if n != REVISION_LEN {
        return false;
    }
    let mut i: usize = 0;
    while i < n
        invariant
            n == revision@.len(),
            i <= n,
            forall|j: int| 0 <= j < i ==> is_digit(revision@[j]),
        decreases n - i,
    {
        let c = revision.get_char(i);
        if !('0' <= c && c <= '9') {
            return false;
        }
        i = i + 1;
    }
    true
}

/// A valid name and a valid revision are recovered from their identifier.
pub proof fn lemma_identifier_parts(name: Seq<char>, revision: Seq<char>)
    requires
        valid_name(name),
        valid_revision(revision),
    ensures
        is_identifier(identifier(name, revision)),
        id_name(identifier(name, revision)) == name,
        id_revision(identifier(name, revision)) == revision,
{
    let s = identifier(name, revision);
    assert(id_name(s) =~= name);
    assert(id_revision(s) =~= revision);
}

/// Splits a combined identifier into its name and its revision, at the last
/// delimiter; fails with `MalformedIdentifier` where the delimiter is absent or
/// either part is not valid.
pub fn parse_named_revision(s: &str) -> (r: Result<NamedRevision, KeyError>)
    ensures
        (r is Ok) == is_identifier(s@),
        r matches Ok(nr) ==> nr.name@ == id_name(s@) && nr.revision@ == id_revision(s@)
            && s@ == identifier(nr.name@, nr.revision@),
        r matches Err(e) ==> e == KeyError::MalformedIdentifier,
{
    let n = s.unicode_len();
    if n < REVISION_LEN + 2 {
        return Err(KeyError::MalformedIdentifier);
    }
    if s.get_char(n - REVISION_LEN - 1) != '-' {
        return Err(KeyError::MalformedIdentifier);
    }
    let name = s.substring_char(0, n - REVISION_LEN - 1);
    let revision = s.substring_char(n - REVISION_LEN, n);
    let r = NamedRevision::new(name, revision);
    proof {
        if r is Ok {
            assert(s@ =~= identifier(name@, revision@));
        }
    }
    r
}

/// The numeric value of a valid revision; for revisions, which are all of one
/// width, this order is their order as strings.
pub fn revision_value(revision: &str) -> (r: u64)
    requires
        valid_revision(revision@),
    ensures
        r == digits_value(revision@),
{
    let mut v: u64 = 0;
    let mut i: usize = 0;
    while i < REVISION_LEN
        invariant
            valid_revision(revision@),
            i <= REVISION_LEN,
            v == digits_value(revision@.subrange(0, i as int)),
            v < pow10(i as nat),
        decreases REVISION_LEN - i,
    {
        let c = revision.get_char(i);
        let d = (c as u32 - '0' as u32) as u64;
        proof {
            let pre = revision@.subrange(0, i as int);
            let next = revision@.subrange(0, i + 1);
            assert(next.drop_last() =~= pre);
            assert(next.last() == c);
            lemma_pow10_bound(i as nat);
            assert(v * 10 + d < pow10(i as nat + 1)) by (nonlinear_arith)
                requires
                    v < pow10(i as nat),
                    d < 10,
                    pow10(i as nat + 1) == pow10(i as nat) * 10,
            ;
        }
        v = v * 10 + d;
        i = i + 1;
    }
    assert(revision@.subrange(0, REVISION_LEN as int) =~= revision@);
    v
}

pub open spec fn pow10(n: nat) -> nat
    decreases n,
{
    if n == 0 {
        1
    } else {
        pow10((n - 1) as nat) * 10
    }
}

proof fn lemma_pow10_bound(n: nat)
    requires
        n <= REVISION_LEN,
    ensures
        pow10(n) <= 100_000_000_000_000,
        pow10(n + 1) == pow10(n) * 10,
    decreases REVISION_LEN - n,
{
    if n < REVISION_LEN {
        lemma_pow10_bound(n + 1);
    } else {
        reveal_with_fuel(pow10, 15);
    }
}

/// `a` comes before `b` as strings: they agree up to some position, where `a`
/// holds the smaller character.
pub open spec fn text_less(a: Seq<char>, b: Seq<char>) -> bool {
    exists|i: int| 0 <= i < a.len() && i < b.len() && a.subrange(0, i) == b.subrange(0, i) && a[i] < b[i]
}

pub open spec fn all_digits(s: Seq<char>) -> bool {
    forall|i: int| 0 <= i < s.len() ==> is_digit(s[i])
}

proof fn lemma_digits_order(a: Seq<char>, b: Seq<char>)
    requires
        a.len() == b.len(),
        all_digits(a),
        all_digits(b),
    ensures
        (digits_value(a) < digits_value(b)) == text_less(a, b),
        (digits_value(a) == digits_value(b)) == (a == b),
    decreases a.len(),
{
    if a.len() == 0 {
        assert(a =~= b);
    } else {
        let n = a.len() as int;
        let a1 = a.drop_last();
        let b1 = b.drop_last();
        lemma_digits_order(a1, b1);
        assert(text_less(a, b) == (text_less(a1, b1) || (a1 == b1 && a.last() < b.last()))) by {
            if text_less(a, b) {
                let i = choose|i: int|
                    0 <= i < a.len() && i < b.len() && a.subrange(0, i) == b.subrange(0, i) && a[i] < b[i];
                if i < n - 1 {
                    assert(a1.subrange(0, i) =~= a.subrange(0, i));
                    assert(b1.subrange(0, i) =~= b.subrange(0, i));
                    assert(a1[i] == a[i] && b1[i] == b[i]);
                } else {
                    assert(a1 =~= a.subrange(0, i));
                    assert(b1 =~= b.subrange(0, i));
                }
            }
            if text_less(a1, b1) {
                let i = choose|i: int|
                    0 <= i < a1.len() && i < b1.len() && a1.subrange(0, i) == b1.subrange(0, i) && a1[i]
                        < b1[i];
                assert(a1.subrange(0, i) =~= a.subrange(0, i));
                assert(b1.subrange(0, i) =~= b.subrange(0, i));
                assert(a1[i] == a[i] && b1[i] == b[i]);
            }
            if a1 == b1 && a.last() < b.last() {
                assert(a1 =~= a.subrange(0, n - 1));
                assert(b1 =~= b.subrange(0, n - 1));
            }
        }
        assert(is_digit(a.last()) && is_digit(b.last()));
        if a1 == b1 && a.last() == b.last() {
            assert forall|i: int| 0 <= i < n implies a[i] == b[i] by {
                if i < n - 1 {
                    assert(a[i] == a1[i] && b[i] == b1[i]);
                }
            }
            assert(a =~= b);
        }
        if a == b {
            assert(a1 =~= b1);
        }
    }
}

/// For revisions, which are all of one width, the order of their values is
/// their order as strings, and equal values are equal revisions.
pub proof fn lemma_revision_order(a: Seq<char>, b: Seq<char>)
    requires
        valid_revision(a),
        valid_revision(b),
    ensures
        (digits_value(a) < digits_value(b)) == text_less(a, b),
        (digits_value(a) == digits_value(b)) == (a == b),
{
    lemma_digits_order(a, b);
}

} // verus!
