//! Deterministic, content-addressed identities.
//!
//! Every asset, archive and job in the pipeline is keyed by a 128-bit
//! identity derived from a namespace and a name, so that the same name
//! always maps to the same cache slot.

use vstd::prelude::*;
use vstd::string::StringExecFns;

verus! {

/// A 128-bit identity, equal to the big-endian value of the sixteen
/// bytes of a version-5 UUID.
#[derive(Copy, Clone, PartialEq, Eq, Hash, Debug, Structural)]
pub struct Uuid {
    pub value: u128,
}

/// Value of the namespace under which all asset names are hashed.
pub const UUID_NAMESPACE_ASSETS: u128 = 0x6ba7b8159dad11d180b400c04fd430c8;

/// The namespace identity under which all asset names are hashed.
pub open spec fn assets_namespace() -> Uuid {
    Uuid { value: UUID_NAMESPACE_ASSETS }
}

/// Returns the namespace identity under which all asset names are hashed.
pub fn asset_namespace() -> (r: Uuid)
    ensures
        r == assets_namespace(),
{
    Uuid { value: UUID_NAMESPACE_ASSETS }
}

/// The identity that a version-5 UUID derivation assigns to a
/// namespace and a name; a fixed function of its two arguments.
pub uninterp spec fn v5_of(namespace: u128, name: Seq<u8>) -> u128;

/// The identity derived for a name under the asset namespace.
pub open spec fn name_uuid(name: Seq<char>) -> Uuid {
    Uuid { value: v5_of(UUID_NAMESPACE_ASSETS, vstd::utf8::encode_utf8(name)) }
}

/// Derives the identity of a named asset.
pub fn uuid_for_name(name: &str) -> (r: Uuid)
    ensures
        r == name_uuid(name@),
{
    Uuid::new_v5(&asset_namespace(), name.as_bytes())
}

/// Things tracked under an identity derived from their type's name,
/// such as jobs, for logging and tracing.
pub trait ToUuid {
    /// The name that is hashed into the identity.
    spec fn uuid_name_spec(&self) -> Seq<char>;

    /// Returns the name that is hashed into the identity.
    fn uuid_name(&self) -> (r: String)
        ensures
            r@ == self.uuid_name_spec(),
    ;

    /// Returns the identity derived from the type's name under the
    /// asset namespace.
    fn uuid(&self) -> (r: Uuid)
        ensures
            r == name_uuid(self.uuid_name_spec()),
    {
        let name = self.uuid_name();
        Uuid::new_v5(&asset_namespace(), name.as_str().as_bytes())
    }
}

/// The big-endian integer value of a byte string.
pub open spec fn be_value(s: Seq<u8>) -> int
    decreases s.len(),
{
    if s.len() == 0 {
        0
    } else {
        be_value(s.drop_last()) * 256 + s.last()
    }
}

/// 256^n, the number of byte strings of length n.
pub open spec fn pow256(n: nat) -> int
    decreases n,
{
    if n == 0 {
        1
    } else {
        256 * pow256((n - 1) as nat)
    }
}

proof fn lemma_pow256_mono(a: nat, b: nat)
    requires
        a <= b,
    ensures
        0 < pow256(a) <= pow256(b),
    decreases b,
{
    if b > 0 {
        if a == b {
            lemma_pow256_mono((b - 1) as nat, (b - 1) as nat);
        } else {
            lemma_pow256_mono(a, (b - 1) as nat);
        }
    }
}

proof fn lemma_be_value_bound(s: Seq<u8>)
    ensures
        0 <= be_value(s) < pow256(s.len()),
    decreases s.len(),
{
    if s.len() > 0 {
        lemma_be_value_bound(s.drop_last());
    }
}

/// The character for one hexadecimal digit, lower case.
pub open spec fn hex_char(n: int) -> char {
    if n == 0 {
        '0'
    } else if n == 1 {
        '1'
    } else if n == 2 {
        '2'
    } else if n == 3 {
        '3'
    } else if n == 4 {
        '4'
    } else if n == 5 {
        '5'
    } else if n == 6 {
        '6'
    } else if n == 7 {
        '7'
    } else if n == 8 {
        '8'
    } else if n == 9 {
        '9'
    } else if n == 10 {
        'a'
    } else if n == 11 {
        'b'
    } else if n == 12 {
        'c'
    } else if n == 13 {
        'd'
    } else if n == 14 {
        'e'
    } else {
        'f'
    }
}

/// The lowest `digits` hexadecimal digits of a value, most significant
/// first.
pub open spec fn hex_seq(v: u128, digits: nat) -> Seq<char>
    decreases digits,
{
    if digits == 0 {
        Seq::empty()
    } else {
        hex_seq(v / 16, (digits - 1) as nat).push(hex_char((v % 16) as int))
    }
}

/// The canonical textual form of an identity: thirty-two lower-case
/// hexadecimal digits in five hyphen-separated groups.
pub open spec fn uuid_canonical(v: u128) -> Seq<char> {
    hex_seq(v / 0x1000000000000000000000000, 8) + seq!['-'] + hex_seq(
        v / 0x100000000000000000000,
        4,
    ) + seq!['-'] + hex_seq(v / 0x10000000000000000, 4) + seq!['-'] + hex_seq(
        v / 0x1000000000000,
        4,
    ) + seq!['-'] + hex_seq(v, 12)
}

fn hex_digit_str(d: u128) -> (r: &'static str)
    requires
        d < 16,
    ensures
        r@ == seq![hex_char(d as int)],
{
    proof {
        reveal_strlit("0");
        reveal_strlit("1");
        reveal_strlit("2");
        reveal_strlit("3");
        reveal_strlit("4");
        reveal_strlit("5");
        reveal_strlit("6");
        reveal_strlit("7");
        reveal_strlit("8");
        reveal_strlit("9");
        reveal_strlit("a");
        reveal_strlit("b");
        reveal_strlit("c");
        reveal_strlit("d");
        reveal_strlit("e");
        reveal_strlit("f");
    }
    match d {
        0 => "0",
        1 => "1",
        2 => "2",
        3 => "3",
        4 => "4",
        5 => "5",
        6 => "6",
        7 => "7",
        8 => "8",
        9 => "9",
        10 => "a",
        11 => "b",
        12 => "c",
        13 => "d",
        14 => "e",
        _ => "f",
    }
}

fn hex_group(v: u128, digits: usize) -> (r: String)
    ensures
        r@ == hex_seq(v, digits as nat),
    decreases digits,
{
    if digits == 0 {
        let r = String::new();
        proof {
            assert(r@ =~= hex_seq(v, 0));
        }
        r
    } else {
        let mut s = hex_group(v / 16, digits - 1);
        s.append(hex_digit_str(v % 16));
        proof {
            assert(s@ =~= hex_seq(v, digits as nat));
        }
        s
    }
}

impl Uuid {
    /// The canonical textual form of the identity: thirty-two
    /// lower-case hexadecimal digits in five hyphen-separated groups.
    pub fn canonical_string(&self) -> (r: String)
        ensures
            r@ == uuid_canonical(self.value),
    {
        proof {
            reveal_strlit("-");
        }
        let mut s = hex_group(self.value / 0x1000000000000000000000000, 8);
        s.append("-");
        s.append(hex_group(self.value / 0x100000000000000000000, 4).as_str());
        s.append("-");
        s.append(hex_group(self.value / 0x10000000000000000, 4).as_str());
        s.append("-");
        s.append(hex_group(self.value / 0x1000000000000, 4).as_str());
        s.append("-");
        s.append(hex_group(self.value, 12).as_str());
        proof {
            assert(s@ =~= uuid_canonical(self.value));
        }
        s
    }

    /// Relies on uuid::Uuid::new_v5: a version-5 (name-based, SHA-1)
    /// UUID is a deterministic function of the namespace and the name
    /// bytes alone.
    #[verifier::external_body]
    pub fn new_v5(namespace: &Uuid, name: &[u8]) -> (r: Uuid)
        ensures
            r.value == v5_of(namespace.value, name@),
    {
        let ns = uuid::Uuid::from_u128(namespace.value);
        Uuid { value: uuid::Uuid::new_v5(&ns, name).as_u128() }
    }

    /// Builds an identity from sixteen raw bytes, interpreted in
    /// big-endian order.
    pub fn from_bytes(bytes: [u8; 16]) -> (r: Uuid)
        ensures
            r.value == be_value(bytes@),
    {
        let mut value: u128 = 0;
        let mut i: usize = 0;
        while i < 16
            invariant
                0 <= i <= 16,
                bytes@.len() == 16,
                value == be_value(bytes@.take(i as int)),
                value < pow256(i as nat),
            decreases 16 - i,
        {
            proof {
                reveal_with_fuel(pow256, 17);
                assert(pow256(16) == 0x100000000000000000000000000000000);
                lemma_pow256_mono((i + 1) as nat, 16);
                assert(bytes@.take(i as int + 1).drop_last() =~= bytes@.take(i as int));
                assert(bytes@.take(i as int + 1).last() == bytes@[i as int]);
            }
            value = value * 256 + bytes[i] as u128;
            i = i + 1;
        }
        proof {
            assert(bytes@.take(16) =~= bytes@);
        }
        Uuid { value }
    }
}

} // verus!
