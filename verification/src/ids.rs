use vstd::prelude::*;

verus! {

/// Relies on `uuid::Uuid::new_v4` and `uuid::Uuid::as_u128`: a freshly drawn
/// random identifier, returned as the big-endian 128-bit value of the UUID.
/// `new_v4` masks in the version nibble (4) and the RFC 4122 variant bits.
#[verifier::external_body]
pub(crate) fn fresh_uuid() -> (r: u128)
    ensures
        (r >> 76) & 0xf == 4,
        (r >> 62) & 0x3 == 2,
{
    uuid::Uuid::new_v4().as_u128()
}

/// Relies on `chrono::Local::now` and `chrono::DateTime::timestamp_millis`:
/// the wall-clock time as milliseconds since the Unix epoch. Nothing is
/// assumed of the value; callers treat any result as a valid reading.
#[verifier::external_body]
fn now_millis() -> i64 {
    chrono::Local::now().timestamp_millis()
}

/// A point in time, as milliseconds since the Unix epoch.
#[derive(Clone, Copy, Debug, PartialEq, Eq, Structural)]
pub struct Timestamp(pub i64);

impl Timestamp {
    /// The current wall-clock time.
    pub fn now() -> Timestamp {
        Timestamp(now_millis())
    }
}

/// Identifies one conversation; drawn at random when a chat is started and
/// immutable afterwards.
#[derive(Clone, Copy, Debug, PartialEq, Eq, Hash, Structural)]
pub struct ConversationId(pub u128);

impl ConversationId {
    /// A freshly drawn random identifier.
    pub fn new() -> ConversationId {
        ConversationId(fresh_uuid())
    }

    pub fn from_u128(value: u128) -> (r: ConversationId)
        ensures
            r.0 == value,
    {
        ConversationId(value)
    }
}

/// Identifies one stored message; drawn at random when the message is
/// created and immutable afterwards.
#[derive(Clone, Copy, Debug, PartialEq, Eq, Hash, Structural)]
pub struct MessageId(pub u128);

impl MessageId {
    /// A freshly drawn random identifier.
    pub fn new() -> MessageId {
        MessageId(fresh_uuid())
    }

    pub fn from_u128(value: u128) -> (r: MessageId)
        ensures
            r.0 == value,
    {
        MessageId(value)
    }
}

/// The lower-case hexadecimal digit for a value below sixteen.
pub open spec fn hex_char(n: int) -> char
    recommends
        0 <= n < 16,
{
    if n == 0 {
        '0'
    } else if n == 1 {
        '1'
    } else if n == 2 {
        '2'
    } else if n == 3 {
        '3'
    } else if n == 4 {
        '4'
    } else if n == 5 {
        '5'
    } else if n == 6 {
        '6'
    } else if n == 7 {
        '7'
    } else if n == 8 {
        '8'
    } else if n == 9 {
        '9'
    } else if n == 10 {
        'a'
    } else if n == 11 {
        'b'
    } else if n == 12 {
        'c'
    } else if n == 13 {
        'd'
    } else if n == 14 {
        'e'
    } else {
        'f'
    }
}

/// Hex digit `d` (counted from the most significant end) of a 128-bit value.
pub open spec fn nibble_of(n: u128, d: int) -> u128
    recommends
        0 <= d < 32,
{
    (n >> ((4 * (31 - d)) as u128)) & 0xf
}

/// Character `i` of the canonical textual form of an identifier: 32 hex
/// digits with hyphens after digits 8, 12, 16 and 20.
pub open spec fn uuid_char_at(n: u128, i: int) -> char
    recommends
        0 <= i < 36,
{
    if i == 8 || i == 13 || i == 18 || i == 23 {
        '-'
    } else {
        let d = if i < 8 {
            i
        } else if i < 13 {
            i - 1
        } else if i < 18 {
            i - 2
        } else if i < 23 {
            i - 3
        } else {
            i - 4
        };
        hex_char(nibble_of(n, d) as int)
    }
}

/// The canonical 36-character textual form of an identifier.
pub open spec fn uuid_chars(n: u128) -> Seq<char> {
    Seq::new(36, |i: int| uuid_char_at(n, i))
}

/// The one-character string holding a lower-case hex digit.
fn hex_char_str(nib: u128) -> (r: &'static str)
    requires
        nib < 16,
    ensures
        r@ =~= seq![hex_char(nib as int)],
{
    let r = if nib == 0 {
        "0"
    } else if nib == 1 {
        "1"
    } else if nib == 2 {
        "2"
    } else if nib == 3 {
        "3"
    } else if nib == 4 {
        "4"
    } else if nib == 5 {
        "5"
    } else if nib == 6 {
        "6"
    } else if nib == 7 {
        "7"
    } else if nib == 8 {
        "8"
    } else if nib == 9 {
        "9"
    } else if nib == 10 {
        "a"
    } else if nib == 11 {
        "b"
    } else if nib == 12 {
        "c"
    } else if nib == 13 {
        "d"
    } else if nib == 14 {
        "e"
    } else {
        "f"
    };
    proof {
        reveal_strlit("0");
        reveal_strlit("1");
        reveal_strlit("2");
        reveal_strlit("3");
        reveal_strlit("4");
        reveal_strlit("5");
        reveal_strlit("6");
        reveal_strlit("7");
        reveal_strlit("8");
        reveal_strlit("9");
        reveal_strlit("a");
        reveal_strlit("b");
        reveal_strlit("c");
        reveal_strlit("d");
        reveal_strlit("e");
        reveal_strlit("f");
    }
    r
}

/// Renders an identifier in its canonical hyphenated form.
pub fn uuid_string(n: u128) -> (r: String)
    ensures
        r@ == uuid_chars(n),
{
    let mut s = String::new();
    let mut i: usize = 0;
    while i < 36
        invariant
            i <= 36,
            s@.len() == i,
            forall|j: int| 0 <= j < i ==> s@[j] == uuid_char_at(n, j),
        decreases 36 - i,
    {
        if i == 8 || i == 13 || i == 18 || i == 23 {
            proof {
                reveal_strlit("-");
            }
            s.append("-");
        } else {
            let d: u128 = if i < 8 {
                i as u128
            } else if i < 13 {
                (i - 1) as u128
            } else if i < 18 {
                (i - 2) as u128
            } else if i < 23 {
                (i - 3) as u128
            } else {
                (i - 4) as u128
            };
            let shift: u128 = 4 * (31 - d);
            let nib: u128 = (n >> shift) & 0xf;
            proof {
                assert(nib < 16) by (bit_vector)
                    requires
                        nib == (n >> shift) & 0xf,
                ;
            }
            s.append(hex_char_str(nib));
        }
        i = i + 1;
    }
    proof {
        assert(s@ =~= uuid_chars(n));
    }
    s
}

/// Distinct 128-bit values render to distinct identifier texts.
pub proof fn lemma_uuid_chars_injective(a: u128, b: u128)
    requires
        uuid_chars(a) == uuid_chars(b),
    ensures
        a == b,
{
    assert forall|d: int| 0 <= d < 32 implies nibble_of(a, d) == nibble_of(b, d) by {
        let p = if d < 8 {
            d
        } else if d < 12 {
            d + 1
        } else if d < 16 {
            d + 2
        } else if d < 20 {
            d + 3
        } else {
            d + 4
        };
        assert(uuid_chars(a)[p] == uuid_chars(b)[p]);
        assert(uuid_chars(a)[p] == uuid_char_at(a, p));
        assert(uuid_chars(b)[p] == uuid_char_at(b, p));
        assert(uuid_char_at(a, p) == hex_char(nibble_of(a, d) as int));
        assert(uuid_char_at(b, p) == hex_char(nibble_of(b, d) as int));
        let sha = (4 * (31 - d)) as u128;
        let na = (a >> sha) & 0xf;
        let nb = (b >> sha) & 0xf;
        assert(na == nibble_of(a, d));
        assert(nb == nibble_of(b, d));
        assert(na < 16 && nb < 16) by (bit_vector)
            requires
                na == (a >> sha) & 0xf,
                nb == (b >> sha) & 0xf,
        ;
        assert(hex_char(na as int) == hex_char(nb as int));
        assert(na == nb);
    }
    assert(nibble_of(a, 0) == nibble_of(b, 0));
    assert(nibble_of(a, 1) == nibble_of(b, 1));
    assert(nibble_of(a, 2) == nibble_of(b, 2));
    assert(nibble_of(a, 3) == nibble_of(b, 3));
    assert(nibble_of(a, 4) == nibble_of(b, 4));
    assert(nibble_of(a, 5) == nibble_of(b, 5));
    assert(nibble_of(a, 6) == nibble_of(b, 6));
    assert(nibble_of(a, 7) == nibble_of(b, 7));
    assert(nibble_of(a, 8) == nibble_of(b, 8));
    assert(nibble_of(a, 9) == nibble_of(b, 9));
    assert(nibble_of(a, 10) == nibble_of(b, 10));
    assert(nibble_of(a, 11) == nibble_of(b, 11));
    assert(nibble_of(a, 12) == nibble_of(b, 12));
    assert(nibble_of(a, 13) == nibble_of(b, 13));
    assert(nibble_of(a, 14) == nibble_of(b, 14));
    assert(nibble_of(a, 15) == nibble_of(b, 15));
    assert(nibble_of(a, 16) == nibble_of(b, 16));
    assert(nibble_of(a, 17) == nibble_of(b, 17));
    assert(nibble_of(a, 18) == nibble_of(b, 18));
    assert(nibble_of(a, 19) == nibble_of(b, 19));
    assert(nibble_of(a, 20) == nibble_of(b, 20));
    assert(nibble_of(a, 21) == nibble_of(b, 21));
    assert(nibble_of(a, 22) == nibble_of(b, 22));
    assert(nibble_of(a, 23) == nibble_of(b, 23));
    assert(nibble_of(a, 24) == nibble_of(b, 24));
    assert(nibble_of(a, 25) == nibble_of(b, 25));
    assert(nibble_of(a, 26) == nibble_of(b, 26));
    assert(nibble_of(a, 27) == nibble_of(b, 27));
    assert(nibble_of(a, 28) == nibble_of(b, 28));
    assert(nibble_of(a, 29) == nibble_of(b, 29));
    assert(nibble_of(a, 30) == nibble_of(b, 30));
    assert(nibble_of(a, 31) == nibble_of(b, 31));
    assert(a == b) by (bit_vector)
        requires
            (a >> 124) & 0xf == (b >> 124) & 0xf,
            (a >> 120) & 0xf == (b >> 120) & 0xf,
            (a >> 116) & 0xf == (b >> 116) & 0xf,
            (a >> 112) & 0xf == (b >> 112) & 0xf,
            (a >> 108) & 0xf == (b >> 108) & 0xf,
            (a >> 104) & 0xf == (b >> 104) & 0xf,
            (a >> 100) & 0xf == (b >> 100) & 0xf,
            (a >> 96) & 0xf == (b >> 96) & 0xf,
            (a >> 92) & 0xf == (b >> 92) & 0xf,
            (a >> 88) & 0xf == (b >> 88) & 0xf,
            (a >> 84) & 0xf == (b >> 84) & 0xf,
            (a >> 80) & 0xf == (b >> 80) & 0xf,
            (a >> 76) & 0xf == (b >> 76) & 0xf,
            (a >> 72) & 0xf == (b >> 72) & 0xf,
            (a >> 68) & 0xf == (b >> 68) & 0xf,
            (a >> 64) & 0xf == (b >> 64) & 0xf,
            (a >> 60) & 0xf == (b >> 60) & 0xf,
            (a >> 56) & 0xf == (b >> 56) & 0xf,
            (a >> 52) & 0xf == (b >> 52) & 0xf,
            (a >> 48) & 0xf == (b >> 48) & 0xf,
            (a >> 44) & 0xf == (b >> 44) & 0xf,
            (a >> 40) & 0xf == (b >> 40) & 0xf,
            (a >> 36) & 0xf == (b >> 36) & 0xf,
            (a >> 32) & 0xf == (b >> 32) & 0xf,
            (a >> 28) & 0xf == (b >> 28) & 0xf,
            (a >> 24) & 0xf == (b >> 24) & 0xf,
            (a >> 20) & 0xf == (b >> 20) & 0xf,
            (a >> 16) & 0xf == (b >> 16) & 0xf,
            (a >> 12) & 0xf == (b >> 12) & 0xf,
            (a >> 8) & 0xf == (b >> 8) & 0xf,
            (a >> 4) & 0xf == (b >> 4) & 0xf,
            (a >> 0) & 0xf == (b >> 0) & 0xf,
    ;
}

} // verus!
