use vstd::prelude::*;

verus! {

/// A UUID, as the big-endian number that its 16 bytes form. Numbers order as the
/// UUIDs do.
pub type JobId = u128;

/// The lowercase hexadecimal digit for `n`.
pub open spec fn hex_digit(n: nat) -> char {
    if n < 10 {
        (48 + n) as char
    } else {
        (87 + n) as char
    }
}

/// The last `count` hexadecimal digits of `value`, the most significant first.
pub open spec fn hex_digits(value: nat, count: nat) -> Seq<char>
    decreases count,
{
    if count == 0 {
        Seq::empty()
    } else {
        hex_digits(value / 16, (count - 1) as nat).push(hex_digit(value % 16))
    }
}

/// The canonical text of an id: 32 lowercase hexadecimal digits in groups of
/// 8, 4, 4, 4 and 12, joined by hyphens.
pub open spec fn id_text(id: JobId) -> Seq<char> {
    let digits = hex_digits(id as nat, 32);
    digits.subrange(0, 8) + seq!['-'] + digits.subrange(8, 12) + seq!['-'] + digits.subrange(12, 16)
        + seq!['-'] + digits.subrange(16, 20) + seq!['-'] + digits.subrange(20, 32)
}

/// `c`, with an ASCII capital letter made small.
pub open spec fn ascii_lower(c: char) -> char {
    if 'A' <= c <= 'Z' {
        (c as u32 + 32) as char
    } else {
        c
    }
}

/// The texts that stand for `id`, in capital or small letters: the digits alone, the
/// canonical text, the canonical text in braces, and the canonical text as a URN.
pub open spec fn denotes_id(s: Seq<char>, id: JobId) -> bool {
    let lower = s.map_values(|c: char| ascii_lower(c));
    ||| lower == hex_digits(id as nat, 32)
    ||| lower == id_text(id)
    ||| lower == seq!['{'] + id_text(id) + seq!['}']
    ||| lower == seq!['u', 'r', 'n', ':', 'u', 'u', 'i', 'd', ':'] + id_text(id)
}

/// The id that a text stands for, if it stands for one.
pub open spec fn denoted_id(s: Seq<char>) -> Option<JobId> {
    if exists|id: JobId| denotes_id(s, id) {
        Some(choose|id: JobId| denotes_id(s, id))
    } else {
        None
    }
}

/// A random UUID of the RFC 4122 layout: its version digit is 4, and the two bits
/// of its variant are 1 and 0.
pub open spec fn is_random_id(id: JobId) -> bool {
    &&& (id / 0x1000_0000_0000_0000_0000) % 16 == 4
    &&& (id / 0x4000_0000_0000_0000) % 4 == 2
}

/// Calls `uuid::Uuid::new_v4` and hands out the UUID's number. The bits are random but
/// for those that mark a version 4 UUID. The call panics where the system yields no
/// random bytes.
#[verifier::external_body]
pub(crate) fn new_id() -> (id: JobId)
    ensures
        is_random_id(id),
{
    uuid::Uuid::new_v4().as_u128()
}

/// Formats the UUID with the number `id` through `uuid::Uuid`'s `Display`, which writes
/// the canonical text.
#[verifier::external_body]
pub(crate) fn format_id(id: JobId) -> (r: String)
    ensures
        r@ == id_text(id),
{
    uuid::Uuid::from_u128(id).to_string()
}

/// Calls `uuid::Uuid::parse_str`, which reads every text that stands for a UUID and
/// rejects all others.
#[verifier::external_body]
pub(crate) fn parse_id(s: &str) -> (r: Option<JobId>)
    ensures
        r matches Some(id) ==> denotes_id(s@, id),
        r is None ==> forall|id: JobId| !denotes_id(s@, id),
{
    match uuid::Uuid::parse_str(s) {
        Ok(id) => Some(id.as_u128()),
        Err(_) => None,
    }
}

spec fn pow16(n: nat) -> nat
    decreases n,
{
    if n == 0 {
        1
    } else {
        16 * pow16((n - 1) as nat)
    }
}

proof fn lemma_hex_digits_len(value: nat, count: nat)
    ensures
        hex_digits(value, count).len() == count,
    decreases count,
{
    if count > 0 {
        lemma_hex_digits_len(value / 16, (count - 1) as nat);
    }
}

proof fn lemma_hex_digits_injective(a: nat, b: nat, count: nat)
    requires
        a < pow16(count),
        b < pow16(count),
        hex_digits(a, count) == hex_digits(b, count),
    ensures
        a == b,
    decreases count,
{
    if count > 0 {
        let n = (count - 1) as nat;
        let da = hex_digits(a, count);
        let db = hex_digits(b, count);
        assert(da.drop_last() =~= hex_digits(a / 16, n));
        assert(db.drop_last() =~= hex_digits(b / 16, n));
        assert(da.last() == hex_digit(a % 16));
        assert(db.last() == hex_digit(b % 16));
        lemma_hex_digits_injective(a / 16, b / 16, n);
    }
}

proof fn lemma_hex_digits_lower(value: nat, count: nat)
    ensures
        forall|i: int|
            0 <= i < count ==> ascii_lower(#[trigger] hex_digits(value, count)[i]) == hex_digits(
                value,
                count,
            )[i],
    decreases count,
{
    lemma_hex_digits_len(value, count);
    if count > 0 {
        lemma_hex_digits_lower(value / 16, (count - 1) as nat);
        lemma_hex_digits_len(value / 16, (count - 1) as nat);
    }
}

/// The canonical text of an id stands for that id.
pub proof fn law_canonical_text_denotes_its_id(id: JobId)
    ensures
        id_text(id).len() == 36,
        denotes_id(id_text(id), id),
{
    let digits = hex_digits(id as nat, 32);
    lemma_hex_digits_len(id as nat, 32);
    lemma_hex_digits_lower(id as nat, 32);
    let text = id_text(id);
    let lower = text.map_values(|c: char| ascii_lower(c));
    assert(lower =~= text) by {
        assert forall|i: int| 0 <= i < 36 implies ascii_lower(#[trigger] text[i]) == text[i] by {
            if i < 8 {
                assert(text[i] == digits[i]);
            } else if 8 < i < 13 {
                assert(text[i] == digits[i - 1]);
            } else if 13 < i < 18 {
                assert(text[i] == digits[i - 2]);
            } else if 18 < i < 23 {
                assert(text[i] == digits[i - 3]);
            } else if 23 < i {
                assert(text[i] == digits[i - 4]);
            }
        }
    }
}

proof fn lemma_hex_digits_ascii(value: nat, count: nat)
    ensures
        forall|i: int|
            0 <= i < count ==> '\0' <= #[trigger] hex_digits(value, count)[i] <= '\u{7f}',
    decreases count,
{
    lemma_hex_digits_len(value, count);
    if count > 0 {
        lemma_hex_digits_ascii(value / 16, (count - 1) as nat);
        lemma_hex_digits_len(value / 16, (count - 1) as nat);
    }
}

/// The canonical text of an id is 36 characters of ASCII.
pub proof fn lemma_id_text_ascii(id: JobId)
    ensures
        id_text(id).len() == 36,
        vstd::utf8::is_ascii_chars(id_text(id)),
{
    let digits = hex_digits(id as nat, 32);
    lemma_hex_digits_len(id as nat, 32);
    lemma_hex_digits_ascii(id as nat, 32);
    let text = id_text(id);
    assert forall|i: int| 0 <= i < 36 implies '\0' <= #[trigger] text[i] <= '\u{7f}' by {
        if i < 8 {
            assert(text[i] == digits[i]);
        } else if 8 < i < 13 {
            assert(text[i] == digits[i - 1]);
        } else if 13 < i < 18 {
            assert(text[i] == digits[i - 2]);
        } else if 18 < i < 23 {
            assert(text[i] == digits[i - 3]);
        } else if 23 < i {
            assert(text[i] == digits[i - 4]);
        }
    }
}

proof fn lemma_id_text_injective(a: JobId, b: JobId)
    requires
        id_text(a) == id_text(b),
    ensures
        a == b,
{
    let da = hex_digits(a as nat, 32);
    let db = hex_digits(b as nat, 32);
    lemma_hex_digits_len(a as nat, 32);
    lemma_hex_digits_len(b as nat, 32);
    let ta = id_text(a);
    let tb = id_text(b);
    assert(da =~= db) by {
        assert forall|i: int| 0 <= i < 32 implies da[i] == db[i] by {
            if i < 8 {
                assert(da[i] == ta[i] && db[i] == tb[i]);
            } else if i < 12 {
                assert(da[i] == ta[i + 1] && db[i] == tb[i + 1]);
            } else if i < 16 {
                assert(da[i] == ta[i + 2] && db[i] == tb[i + 2]);
            } else if i < 20 {
                assert(da[i] == ta[i + 3] && db[i] == tb[i + 3]);
            } else {
                assert(da[i] == ta[i + 4] && db[i] == tb[i + 4]);
            }
        }
    }
    lemma_digits_determine_id(a, b);
}

proof fn lemma_digits_determine_id(a: JobId, b: JobId)
    requires
        hex_digits(a as nat, 32) == hex_digits(b as nat, 32),
    ensures
        a == b,
{
    assert(pow16(32) == 0x1_0000_0000_0000_0000_0000_0000_0000_0000) by {
        reveal_with_fuel(pow16, 33);
    }
    lemma_hex_digits_injective(a as nat, b as nat, 32);
}

/// No text stands for two ids.
pub proof fn law_text_denotes_one_id(s: Seq<char>, a: JobId, b: JobId)
    requires
        denotes_id(s, a),
        denotes_id(s, b),
    ensures
        a == b,
{
    let lower = s.map_values(|c: char| ascii_lower(c));
    lemma_hex_digits_len(a as nat, 32);
    lemma_hex_digits_len(b as nat, 32);
    law_canonical_text_denotes_its_id(a);
    law_canonical_text_denotes_its_id(b);
    let ta = id_text(a);
    let tb = id_text(b);
    if lower.len() == 32 {
        lemma_digits_determine_id(a, b);
    } else {
        if lower.len() == 36 {
            assert(ta == tb);
        } else if lower.len() == 38 {
            assert(ta =~= lower.subrange(1, 37));
            assert(tb =~= lower.subrange(1, 37));
        } else {
            assert(ta =~= lower.subrange(9, 45));
            assert(tb =~= lower.subrange(9, 45));
        }
        lemma_id_text_injective(a, b);
    }
}

/// A text that stands for an id stands for that id alone.
pub proof fn law_denoted_id(s: Seq<char>, id: JobId)
    requires
        denotes_id(s, id),
    ensures
        denoted_id(s) == Some(id),
{
    law_text_denotes_one_id(s, id, denoted_id(s)->0);
}

/// A random id is never the nil UUID.
pub proof fn law_random_id_is_not_nil(id: JobId)
    requires
        is_random_id(id),
    ensures
        id != 0,
{
}

} // verus!
