//! Vulkan driver identities: the stable text form used by persisted benchmark profiles, and the
//! application's exact deny rules.

use vstd::prelude::*;

use crate::config::MeshletBackend;
use crate::text::str_equal;

verus! {

/// Stable Vulkan driver identity used by persisted benchmark profiles and explicit deny rules.
#[derive(Clone, Debug, Default, PartialEq, Eq, Hash)]
pub struct MeshletDriverKey {
    pub vendor: u32,
    pub device: u32,
    pub driver: String,
    pub driver_info: String,
}

/// The lowercase hexadecimal digit of `d`.
pub open spec fn hex_char(d: int) -> char {
    if d < 10 {
        (('0' as int) + d) as char
    } else {
        (('a' as int) + d - 10) as char
    }
}

/// The last `n` hexadecimal digits of `v`, most significant first.
pub open spec fn hex_digits(v: nat, n: nat) -> Seq<char>
    decreases n,
{
    if n == 0 {
        Seq::empty()
    } else {
        hex_digits(v / 16, (n - 1) as nat).push(hex_char((v % 16) as int))
    }
}

/// The decimal digits of `v`, most significant first, without leading zeros.
pub open spec fn decimal(v: nat) -> Seq<char>
    decreases v,
{
    if v < 10 {
        seq![hex_char(v as int)]
    } else {
        decimal(v / 10).push(hex_char((v % 10) as int))
    }
}

/// The UTF-8 length of a string.
pub open spec fn utf8_len(s: Seq<char>) -> nat {
    vstd::utf8::encode_utf8(s).len()
}

/// `vendor:device:len:driver:len:info`, the identifiers as eight hexadecimal digits and each
/// string preceded by its UTF-8 byte length, so that separators inside the strings cannot make
/// two keys read alike.
pub open spec fn spec_stable_id(
    vendor: u32,
    device: u32,
    driver: Seq<char>,
    driver_info: Seq<char>,
) -> Seq<char> {
    hex_digits(vendor as nat, 8) + seq![':'] + hex_digits(device as nat, 8) + seq![':'] + decimal(
        utf8_len(driver),
    ) + seq![':'] + driver + seq![':'] + decimal(utf8_len(driver_info)) + seq![':'] + driver_info
}

/// The one-character string of digit `d`.
fn digit_str(d: u32) -> (r: &'static str)
    requires
        d < 16,
    ensures
        r@ == seq![hex_char(d as int)],
{
    proof {
        reveal_strlit("0");
        reveal_strlit("1");
        reveal_strlit("2");
        reveal_strlit("3");
        reveal_strlit("4");
        reveal_strlit("5");
        reveal_strlit("6");
        reveal_strlit("7");
        reveal_strlit("8");
        reveal_strlit("9");
        reveal_strlit("a");
        reveal_strlit("b");
        reveal_strlit("c");
        reveal_strlit("d");
        reveal_strlit("e");
        reveal_strlit("f");
    }
    let r = if d == 0 {
        "0"
    } else if d == 1 {
        "1"
    } else if d == 2 {
        "2"
    } else if d == 3 {
        "3"
    } else if d == 4 {
        "4"
    } else if d == 5 {
        "5"
    } else if d == 6 {
        "6"
    } else if d == 7 {
        "7"
    } else if d == 8 {
        "8"
    } else if d == 9 {
        "9"
    } else if d == 10 {
        "a"
    } else if d == 11 {
        "b"
    } else if d == 12 {
        "c"
    } else if d == 13 {
        "d"
    } else if d == 14 {
        "e"
    } else {
        "f"
    };
    assert(r@ =~= seq![hex_char(d as int)]);
    r
}

/// Appends the last `n` hexadecimal digits of `v`.
fn push_hex(out: &mut String, v: u32, n: u32)
    ensures
        final(out)@ == old(out)@ + hex_digits(v as nat, n as nat),
    decreases n,
{
    if n > 0 {
        push_hex(out, v / 16, n - 1);
        out.append(digit_str(v % 16));
    } else {
        assert(old(out)@ + hex_digits(v as nat, 0) =~= old(out)@);
    }
}

/// Appends the decimal digits of `v`.
fn push_decimal(out: &mut String, v: usize)
    ensures
        final(out)@ == old(out)@ + decimal(v as nat),
    decreases v,
{
    if v >= 10 {
        push_decimal(out, v / 10);
    }
    out.append(digit_str((v % 10) as u32));
    proof {
        if v < 10 {
            assert(old(out)@ + seq![hex_char(v as int)] =~= old(out)@ + decimal(v as nat));
        }
    }
}

/// The separator.
fn colon() -> (r: &'static str)
    ensures
        r@ == seq![':'],
{
    proof {
        reveal_strlit(":");
    }
    ":"
}

impl MeshletDriverKey {
    /// The identity as text: `vendor:device:len:driver:len:info`.
    pub fn stable_id(&self) -> (r: String)
        ensures
            r@ == spec_stable_id(self.vendor, self.device, self.driver@, self.driver_info@),
    {
        let mut out = String::new();
        push_hex(&mut out, self.vendor, 8);
        out.append(colon());
        push_hex(&mut out, self.device, 8);
        out.append(colon());
        let driver = self.driver.as_str();
        let info = self.driver_info.as_str();
        push_decimal(&mut out, driver.as_bytes().len());
        out.append(colon());
        out.append(driver);
        out.append(colon());
        push_decimal(&mut out, info.as_bytes().len());
        out.append(colon());
        out.append(info);
        assert(out@ =~= spec_stable_id(self.vendor, self.device, self.driver@, self.driver_info@));
        out
    }
}

/// `16` to the `n`.
pub open spec fn pow16(n: nat) -> nat
    decreases n,
{
    if n == 0 {
        1
    } else {
        16 * pow16((n - 1) as nat)
    }
}

proof fn lemma_hex_char(d: int, e: int)
    requires
        0 <= d < 16,
        0 <= e < 16,
    ensures
        hex_char(d) != ':',
        hex_char(d) == hex_char(e) ==> d == e,
{
}

/// Eight-digit (or any fixed-width) hexadecimal text has that many digits, no separator, and
/// names one value below `16^n`.
proof fn lemma_hex_digits(v: nat, w: nat, n: nat)
    ensures
        hex_digits(v, n).len() == n,
        forall|i: int| 0 <= i < n ==> #[trigger] hex_digits(v, n)[i] != ':',
        v < pow16(n) && w < pow16(n) && hex_digits(v, n) == hex_digits(w, n) ==> v == w,
    decreases n,
{
    if n > 0 {
        let m = (n - 1) as nat;
        lemma_hex_digits(v / 16, w / 16, m);
        lemma_hex_char((v % 16) as int, (w % 16) as int);
        assert forall|i: int| 0 <= i < n implies #[trigger] hex_digits(v, n)[i] != ':' by {
            if i < m {
                assert(hex_digits(v, n)[i] == hex_digits(v / 16, m)[i]);
            }
        }
        if v < pow16(n) && w < pow16(n) && hex_digits(v, n) == hex_digits(w, n) {
            assert(hex_digits(v, n).last() == hex_char((v % 16) as int));
            assert(hex_digits(w, n).last() == hex_char((w % 16) as int));
            assert(hex_digits(v, n).drop_last() =~= hex_digits(v / 16, m));
            assert(hex_digits(w, n).drop_last() =~= hex_digits(w / 16, m));
            assert(v / 16 < pow16(m) && w / 16 < pow16(m)) by (nonlinear_arith)
                requires
                    v < 16 * pow16(m),
                    w < 16 * pow16(m),
            ;
        }
    }
}

/// Decimal text has at least one digit (two from ten on), no separator, and names one value.
proof fn lemma_decimal(a: nat, b: nat)
    ensures
        decimal(a).len() >= 1,
        a >= 10 ==> decimal(a).len() >= 2,
        forall|i: int| 0 <= i < decimal(a).len() ==> #[trigger] decimal(a)[i] != ':',
        decimal(a) == decimal(b) ==> a == b,
    decreases a,
{
    lemma_hex_char((a % 10) as int, (b % 10) as int);
    if a >= 10 {
        lemma_decimal(a / 10, b / 10);
        assert forall|i: int| 0 <= i < decimal(a).len() implies #[trigger] decimal(a)[i] != ':' by {
            if i < decimal(a / 10).len() {
                assert(decimal(a)[i] == decimal(a / 10)[i]);
            }
        }
        if decimal(a) == decimal(b) {
            if b < 10 {
                assert(decimal(b).len() == 1);
            } else {
                assert(decimal(a).drop_last() =~= decimal(a / 10));
                assert(decimal(b).drop_last() =~= decimal(b / 10));
                assert(decimal(a).last() == hex_char((a % 10) as int));
                assert(decimal(b).last() == hex_char((b % 10) as int));
            }
        }
    } else if decimal(a) == decimal(b) {
        if b >= 10 {
            lemma_decimal(b, a);
        } else {
            assert(decimal(a)[0] == hex_char(a as int));
            assert(decimal(b)[0] == hex_char(b as int));
        }
    }
}

/// Text before the first separator is determined: `a` and `b` hold no separator.
proof fn lemma_split_at_colon(a: Seq<char>, x: Seq<char>, b: Seq<char>, y: Seq<char>)
    requires
        forall|i: int| 0 <= i < a.len() ==> #[trigger] a[i] != ':',
        forall|i: int| 0 <= i < b.len() ==> #[trigger] b[i] != ':',
        a + seq![':'] + x == b + seq![':'] + y,
    ensures
        a == b,
        x == y,
{
    let s = a + seq![':'] + x;
    let t = b + seq![':'] + y;
    if a.len() < b.len() {
        assert(s[a.len() as int] == ':');
        assert(t[a.len() as int] == b[a.len() as int]);
    } else if b.len() < a.len() {
        assert(t[b.len() as int] == ':');
        assert(s[b.len() as int] == a[b.len() as int]);
    } else {
        assert(a =~= s.subrange(0, a.len() as int));
        assert(b =~= t.subrange(0, b.len() as int));
        assert(x =~= s.skip(a.len() as int + 1));
        assert(y =~= t.skip(b.len() as int + 1));
    }
}

/// The UTF-8 length of a concatenation is the sum of the lengths, and every character takes at
/// least one byte.
proof fn lemma_utf8_len_concat(a: Seq<char>, c: Seq<char>)
    ensures
        utf8_len(a + c) == utf8_len(a) + utf8_len(c),
        c.len() > 0 ==> utf8_len(c) >= 1,
    decreases a.len(),
{
    if a.len() == 0 {
        assert(a + c =~= c);
    } else {
        lemma_utf8_len_concat(a.drop_first(), c);
        assert((a + c).drop_first() =~= a.drop_first() + c);
        assert((a + c)[0] == a[0]);
    }
}

/// Text split after a prefix of known UTF-8 length is determined.
proof fn lemma_split_at_utf8_len(a: Seq<char>, x: Seq<char>, b: Seq<char>, y: Seq<char>)
    requires
        a + x == b + y,
        utf8_len(a) == utf8_len(b),
    ensures
        a == b,
        x == y,
{
    let s = a + x;
    if a.len() < b.len() {
        let c = b.subrange(a.len() as int, b.len() as int);
        assert(b =~= a + c) by {
            assert forall|i: int| 0 <= i < a.len() implies b[i] == a[i] by {
                assert(s[i] == a[i]);
                assert((b + y)[i] == b[i]);
            }
        }
        lemma_utf8_len_concat(a, c);
    } else if b.len() < a.len() {
        let c = a.subrange(b.len() as int, a.len() as int);
        assert(a =~= b + c) by {
            assert forall|i: int| 0 <= i < b.len() implies a[i] == b[i] by {
                assert(s[i] == a[i]);
                assert((b + y)[i] == b[i]);
            }
        }
        lemma_utf8_len_concat(b, c);
    } else {
        assert(a =~= s.subrange(0, a.len() as int));
        assert(b =~= (b + y).subrange(0, b.len() as int));
        assert(x =~= s.skip(a.len() as int));
        assert(y =~= (b + y).skip(b.len() as int));
    }
}

/// The stable id, read as nested fields.
proof fn lemma_stable_id_shape(vendor: u32, device: u32, driver: Seq<char>, info: Seq<char>)
    ensures
        spec_stable_id(vendor, device, driver, info) == hex_digits(vendor as nat, 8) + seq![':']
            + (hex_digits(device as nat, 8) + seq![':'] + (decimal(utf8_len(driver)) + seq![':']
            + (driver + (seq![':'] + (decimal(utf8_len(info)) + seq![':'] + info))))),
{
    assert(spec_stable_id(vendor, device, driver, info) =~= hex_digits(vendor as nat, 8) + seq![
        ':',
    ] + (hex_digits(device as nat, 8) + seq![':'] + (decimal(utf8_len(driver)) + seq![':'] + (
    driver + (seq![':'] + (decimal(utf8_len(info)) + seq![':'] + info))))));
}

/// Stable identities never collide: two keys with the same stable id are the same driver, even
/// when the driver strings contain the separator.
pub proof fn lemma_stable_id_is_injective(a: MeshletDriverKey, b: MeshletDriverKey)
    requires
        spec_stable_id(a.vendor, a.device, a.driver@, a.driver_info@) == spec_stable_id(
            b.vendor,
            b.device,
            b.driver@,
            b.driver_info@,
        ),
    ensures
        same_key(a, b),
{
    let colon = seq![':'];
    let ea = decimal(utf8_len(a.driver_info@));
    let eb = decimal(utf8_len(b.driver_info@));
    let r4a = ea + colon + a.driver_info@;
    let r4b = eb + colon + b.driver_info@;
    let r3a = a.driver@ + (colon + r4a);
    let r3b = b.driver@ + (colon + r4b);
    let r2a = decimal(utf8_len(a.driver@)) + colon + r3a;
    let r2b = decimal(utf8_len(b.driver@)) + colon + r3b;
    let r1a = hex_digits(a.device as nat, 8) + colon + r2a;
    let r1b = hex_digits(b.device as nat, 8) + colon + r2b;
    lemma_stable_id_shape(a.vendor, a.device, a.driver@, a.driver_info@);
    lemma_stable_id_shape(b.vendor, b.device, b.driver@, b.driver_info@);
    reveal_with_fuel(pow16, 9);
    assert(a.vendor == b.vendor && r1a == r1b) by {
        lemma_hex_digits(a.vendor as nat, b.vendor as nat, 8);
        lemma_hex_digits(b.vendor as nat, a.vendor as nat, 8);
        lemma_split_at_colon(hex_digits(a.vendor as nat, 8), r1a, hex_digits(b.vendor as nat, 8), r1b);
    }
    assert(a.device == b.device && r2a == r2b) by {
        lemma_hex_digits(a.device as nat, b.device as nat, 8);
        lemma_hex_digits(b.device as nat, a.device as nat, 8);
        lemma_split_at_colon(hex_digits(a.device as nat, 8), r2a, hex_digits(b.device as nat, 8), r2b);
    }
    assert(utf8_len(a.driver@) == utf8_len(b.driver@) && r3a == r3b) by {
        lemma_decimal(utf8_len(a.driver@), utf8_len(b.driver@));
        lemma_decimal(utf8_len(b.driver@), utf8_len(a.driver@));
        lemma_split_at_colon(decimal(utf8_len(a.driver@)), r3a, decimal(utf8_len(b.driver@)), r3b);
    }
    assert(a.driver@ == b.driver@ && r4a == r4b) by {
        lemma_split_at_utf8_len(a.driver@, colon + r4a, b.driver@, colon + r4b);
        assert(r4a =~= (colon + r4a).drop_first());
        assert(r4b =~= (colon + r4b).drop_first());
    }
    assert(a.driver_info@ == b.driver_info@) by {
        lemma_decimal(utf8_len(a.driver_info@), utf8_len(b.driver_info@));
        lemma_decimal(utf8_len(b.driver_info@), utf8_len(a.driver_info@));
        lemma_split_at_colon(ea, a.driver_info@, eb, b.driver_info@);
    }
}

/// Two keys name the same driver.
pub open spec fn same_key(a: MeshletDriverKey, b: MeshletDriverKey) -> bool {
    &&& a.vendor == b.vendor
    &&& a.device == b.device
    &&& a.driver@ == b.driver@
    &&& a.driver_info@ == b.driver_info@
}

/// Whether two keys name the same driver.
pub fn keys_equal(a: &MeshletDriverKey, b: &MeshletDriverKey) -> (r: bool)
    ensures
        r == same_key(*a, *b),
{
    a.vendor == b.vendor && a.device == b.device && str_equal(a.driver.as_str(), b.driver.as_str())
        && str_equal(a.driver_info.as_str(), b.driver_info.as_str())
}

/// One exact, auditable driver/backend deny rule.
#[derive(Clone, Debug, PartialEq, Eq)]
pub struct MeshletDriverBlacklistEntry {
    pub key: MeshletDriverKey,
    pub backend: MeshletBackend,
    pub reason: String,
}

/// Application-supplied Vulkan driver deny rules. No driver is denied by default.
#[derive(Clone, Debug, Default, PartialEq, Eq)]
pub struct MeshletDriverBlacklist {
    pub entries: Vec<MeshletDriverBlacklistEntry>,
}

/// Entry `i` denies `backend` on the driver `key`.
pub open spec fn entry_denies(e: MeshletDriverBlacklistEntry, key: MeshletDriverKey, backend: MeshletBackend) -> bool {
    e.backend == backend && same_key(e.key, key)
}

/// The first entry that denies `backend` on `key`.
pub open spec fn first_denial(entries: Seq<MeshletDriverBlacklistEntry>, key: MeshletDriverKey, backend: MeshletBackend) -> Option<int> {
    if exists|i: int| 0 <= i < entries.len() && entry_denies(#[trigger] entries[i], key, backend) {
        Some(
            choose|i: int|
                0 <= i < entries.len() && entry_denies(#[trigger] entries[i], key, backend) && forall|
                    j: int,
                |
                    0 <= j < i ==> !entry_denies(#[trigger] entries[j], key, backend),
        )
    } else {
        None
    }
}

impl MeshletDriverBlacklist {
    /// The reason of the first rule that denies `backend` on `key`, if any.
    pub fn reason_for(&self, key: &MeshletDriverKey, backend: MeshletBackend) -> (r: Option<&str>)
        ensures
            first_denial(self.entries@, *key, backend) is None ==> r is None,
            first_denial(self.entries@, *key, backend) matches Some(i) ==> (r matches Some(s)
                && s@ == self.entries@[i].reason@),
    {
        let mut i: usize = 0;
        while i < self.entries.len()
            invariant
                i <= self.entries@.len(),
                forall|j: int| 0 <= j < i ==> !entry_denies(#[trigger] self.entries@[j], *key, backend),
            decreases self.entries@.len() - i,
        {
            let entry = &self.entries[i];
            if entry.backend == backend && keys_equal(&entry.key, key) {
                proof {
                    let c = choose|c: int|
                        0 <= c < self.entries@.len() && entry_denies(
                            #[trigger] self.entries@[c],
                            *key,
                            backend,
                        ) && forall|j: int|
                            0 <= j < c ==> !entry_denies(#[trigger] self.entries@[j], *key, backend);
                    assert(entry_denies(self.entries@[i as int], *key, backend));
                    if c < i {
                    } else if c > i {
                        assert(!entry_denies(self.entries@[i as int], *key, backend));
                    }
                }
                return Some(entry.reason.as_str());
            }
            i = i + 1;
        }
        None
    }
}

} // verus!
