use vstd::prelude::*;

verus! {

/// A non-negative decimal number with an explicit count of fractional
/// digits: the value is `mantissa / 10^scale`. Sampling parameters are kept
/// in this form; the API boundary converts them to floating point.
#[derive(Clone, Copy, Debug, PartialEq, Eq, Structural)]
pub struct Decimal {
    pub mantissa: u64,
    pub scale: u32,
}

impl Decimal {
    /// The decimal `1`.
    pub fn one() -> (r: Decimal)
        ensures
            r == (Decimal { mantissa: 1u64, scale: 0u32 }),
    {
        Decimal { mantissa: 1, scale: 0 }
    }
}

/// A decimal digit.
pub open spec fn is_digit(c: char) -> bool {
    48 <= c as u32 <= 57
}

/// The value of a decimal digit.
pub open spec fn digit_val(c: char) -> int {
    c as u32 - 48
}

/// Every character is a decimal digit.
pub open spec fn all_digits(s: Seq<char>) -> bool {
    forall|i: int| 0 <= i < s.len() ==> is_digit(s[i])
}

/// The number the digit string denotes, most significant digit first.
pub open spec fn digits_val(s: Seq<char>) -> int
    decreases s.len(),
{
    if s.len() == 0 {
        0
    } else {
        digits_val(s.drop_last()) * 10 + digit_val(s.last())
    }
}

/// A digit string denotes a non-negative number.
pub proof fn lemma_digits_val_nonneg(s: Seq<char>)
    requires
        all_digits(s),
    ensures
        digits_val(s) >= 0,
    decreases s.len(),
{
    if s.len() > 0 {
        assert(all_digits(s.drop_last()));
        lemma_digits_val_nonneg(s.drop_last());
    }
}

/// Reading further digits never shrinks the value.
pub proof fn lemma_digits_val_grows(s: Seq<char>, i: int)
    requires
        all_digits(s),
        0 <= i <= s.len(),
    ensures
        digits_val(s.take(i)) <= digits_val(s),
    decreases s.len() - i,
{
    assert(all_digits(s.take(i)));
    if i == s.len() {
        assert(s.take(i) =~= s);
    } else {
        lemma_digits_val_grows(s, i + 1);
        assert(s.take(i + 1).drop_last() =~= s.take(i));
        lemma_digits_val_nonneg(s.take(i));
    }
}

/// Whether a digit string denotes a value no larger than `max`.
pub open spec fn spec_valid_usize(s: Seq<char>) -> bool {
    s.len() > 0 && all_digits(s) && digits_val(s) <= usize::MAX
}

/// Parses an unsigned number: one or more decimal digits, no sign, no other
/// characters, value within range.
pub fn parse_usize(s: &str) -> (r: Option<usize>)
    ensures
        match r {
            Some(v) => spec_valid_usize(s@) && v == digits_val(s@),
            None => !spec_valid_usize(s@),
        },
{
    let n = s.unicode_len();
    if n == 0 {
        return None;
    }
    let mut acc: usize = 0;
    let mut i: usize = 0;
    while i < n
        invariant
            i <= n,
            n == s@.len(),
            all_digits(s@.take(i as int)),
            acc == digits_val(s@.take(i as int)),
        decreases n - i,
    {
        let c = s.get_char(i);
        let cu = c as u32;
        if cu < 48 || cu > 57 {
            proof {
                assert(!is_digit(s@[i as int]));
            }
            return None;
        }
        let d = (cu - 48) as usize;
        proof {
            assert(s@.take(i + 1).drop_last() =~= s@.take(i as int));
            assert(s@.take(i + 1).last() == s@[i as int]);
        }
        if acc > (usize::MAX - d) / 10 {
            proof {
                assert(acc * 10 + d > usize::MAX) by (nonlinear_arith)
                    requires
                        acc > (usize::MAX - d) / 10,
                        0 <= d <= 9,
                ;
                assert(digits_val(s@.take(i + 1)) > usize::MAX);
                if all_digits(s@) {
                    lemma_digits_val_grows(s@, i + 1);
                }
            }
            return None;
        }
        acc = acc * 10 + d;
        i = i + 1;
    }
    proof {
        assert(s@.take(n as int) =~= s@);
    }
    Some(acc)
}

/// Where the first decimal point stands, or the length when there is none.
pub open spec fn first_dot(s: Seq<char>) -> int
    decreases s.len(),
{
    if s.len() == 0 {
        0
    } else if s[0] == '.' {
        0
    } else {
        1 + first_dot(s.skip(1))
    }
}

/// The digits before the decimal point.
pub open spec fn int_part(s: Seq<char>) -> Seq<char> {
    s.take(first_dot(s))
}

/// The digits after the decimal point; empty when there is none.
pub open spec fn frac_part(s: Seq<char>) -> Seq<char> {
    if first_dot(s) < s.len() {
        s.skip(first_dot(s) + 1)
    } else {
        Seq::<char>::empty()
    }
}

/// A decimal literal: digits around at most one point, at least one digit
/// in all. A second point fails the digit test of the fractional part.
pub open spec fn is_decimal_text(s: Seq<char>) -> bool {
    &&& all_digits(int_part(s))
    &&& all_digits(frac_part(s))
    &&& int_part(s).len() + frac_part(s).len() >= 1
}

/// The mantissa a decimal literal denotes: its digits read as one number.
pub open spec fn decimal_mantissa(s: Seq<char>) -> int {
    digits_val(int_part(s) + frac_part(s))
}

/// Whether a decimal literal fits the `Decimal` representation.
pub open spec fn spec_valid_decimal(s: Seq<char>) -> bool {
    &&& is_decimal_text(s)
    &&& decimal_mantissa(s) <= u64::MAX
    &&& frac_part(s).len() <= u32::MAX
}

/// A position before which no point stands, and which is a point or the
/// end, is where `first_dot` points.
proof fn lemma_first_dot_at(s: Seq<char>, k: int)
    requires
        0 <= k <= s.len(),
        forall|j: int| 0 <= j < k ==> s[j] != '.',
        k < s.len() ==> s[k] == '.',
    ensures
        first_dot(s) == k,
    decreases s.len(),
{
    if s.len() == 0 {
    } else if s[0] == '.' {
        assert(k == 0);
    } else {
        assert(k >= 1);
        assert forall|j: int| 0 <= j < k - 1 implies s.skip(1)[j] != '.' by {
            assert(s.skip(1)[j] == s[j + 1]);
        }
        if k - 1 < s.skip(1).len() {
            assert(s.skip(1)[k - 1] == s[k]);
        }
        lemma_first_dot_at(s.skip(1), k - 1);
    }
}

/// Parses a decimal literal into its mantissa and its count of fractional
/// digits.
pub fn parse_decimal(s: &str) -> (r: Option<Decimal>)
    ensures
        match r {
            Some(d) => spec_valid_decimal(s@) && d.mantissa == decimal_mantissa(s@) && d.scale
                == frac_part(s@).len(),
            None => !spec_valid_decimal(s@),
        },
{
    let n = s.unicode_len();
    // find the decimal point, if any
    let mut dot: usize = n;
    let mut i: usize = 0;
    while i < n && dot == n
        invariant
            i <= n,
            n == s@.len(),
            dot <= n,
            dot == n ==> forall|j: int| 0 <= j < i ==> s@[j] != '.',
            dot < n ==> s@[dot as int] == '.' && (forall|j: int| 0 <= j < dot ==> s@[j] != '.'),
        decreases n - i,
    {
        if s.get_char(i) == '.' {
            dot = i;
        }
        i = i + 1;
    }
    proof {
        lemma_first_dot_at(s@, dot as int);
    }
    let ghost ds = int_part(s@) + frac_part(s@);
    proof {
        if dot < n {
            assert(ds =~= s@.take(dot as int) + s@.skip(dot as int + 1));
        } else {
            assert(ds =~= s@);
        }
    }
    if n == 0 || (dot == 0 && n == 1) {
        proof {
            assert(int_part(s@).len() + frac_part(s@).len() == 0);
        }
        return None;
    }
    if dot < n && n - dot - 1 > (u32::MAX as usize) {
        proof {
            assert(frac_part(s@).len() > u32::MAX);
        }
        return None;
    }
    let mut acc: u64 = 0;
    let mut k: usize = 0;
    let mut i: usize = 0;
    while i < n
        invariant
            i <= n,
            n == s@.len(),
            dot <= n,
            dot == first_dot(s@),
            ds == int_part(s@) + frac_part(s@),
            k == if i <= dot {
                i as int
            } else {
                i - 1
            },
            k <= ds.len(),
            all_digits(ds.take(k as int)),
            acc == digits_val(ds.take(k as int)),
        decreases n - i,
    {
        if i == dot {
            i = i + 1;
        } else {
            let c = s.get_char(i);
            let cu = c as u32;
            proof {
                if i < dot {
                    assert(ds[k as int] == s@.take(dot as int)[i as int]);
                } else {
                    assert(ds[k as int] == s@.skip(dot as int + 1)[i - dot - 1]);
                }
                assert(ds[k as int] == s@[i as int]);
            }
            if cu < 48 || cu > 57 {
                proof {
                    assert(!is_digit(ds[k as int]));
                    assert(!all_digits(ds));
                }
                return None;
            }
            let d = (cu - 48) as u64;
            proof {
                assert(ds.take(k + 1).drop_last() =~= ds.take(k as int));
                assert(ds.take(k + 1).last() == ds[k as int]);
            }
            if acc > (u64::MAX - d) / 10 {
                proof {
                    assert(acc * 10 + d > u64::MAX) by (nonlinear_arith)
                        requires
                            acc > (u64::MAX - d) / 10,
                            0 <= d <= 9,
                    ;
                    assert(digits_val(ds.take(k + 1)) > u64::MAX);
                    if all_digits(ds) {
                        lemma_digits_val_grows(ds, k + 1);
                    }
                }
                return None;
            }
            acc = acc * 10 + d;
            k = k + 1;
            i = i + 1;
        }
    }
    proof {
        assert(ds.take(k as int) =~= ds);
        assert forall|j: int| 0 <= j < int_part(s@).len() implies is_digit(int_part(s@)[j]) by {
            assert(ds[j] == int_part(s@)[j]);
        }
        assert forall|j: int| 0 <= j < frac_part(s@).len() implies is_digit(frac_part(s@)[j]) by {
            assert(ds[int_part(s@).len() + j] == frac_part(s@)[j]);
        }
    }
    let scale: u32 = if dot < n {
        (n - dot - 1) as u32
    } else {
        0
    };
    proof {
        if dot < n {
            assert(frac_part(s@).len() == n - dot - 1);
        }
    }
    Some(Decimal { mantissa: acc, scale })
}

/// Applies one edit of an unsigned numeric field: empty input clears it, a
/// valid number replaces it, anything else keeps the previous value and
/// flags the field invalid.
pub fn apply_usize_edit(current: Option<usize>, input: &str) -> (r: (Option<usize>, bool))
    ensures
        r.1 == (input@.len() == 0 || spec_valid_usize(input@)),
        r.0 == (if input@.len() == 0 {
            None
        } else if spec_valid_usize(input@) {
            Some(digits_val(input@) as usize)
        } else {
            current
        }),
{
    if input.unicode_len() == 0 {
        (None, true)
    } else {
        match parse_usize(input) {
            Some(v) => (Some(v), true),
            None => (current, false),
        }
    }
}

/// Applies one edit of a decimal field: empty input clears it, a valid
/// decimal replaces it, anything else keeps the previous value and flags
/// the field invalid.
pub fn apply_decimal_edit(current: Option<Decimal>, input: &str) -> (r: (Option<Decimal>, bool))
    ensures
        r.1 == (input@.len() == 0 || spec_valid_decimal(input@)),
        r.0 == (if input@.len() == 0 {
            None
        } else if spec_valid_decimal(input@) {
            Some(
                Decimal {
                    mantissa: decimal_mantissa(input@) as u64,
                    scale: frac_part(input@).len() as u32,
                },
            )
        } else {
            current
        }),
{
    if input.unicode_len() == 0 {
        (None, true)
    } else {
        match parse_decimal(input) {
            Some(v) => (Some(v), true),
            None => (current, false),
        }
    }
}

/// Per-conversation generation parameters; `None` means "use the backend's
/// default".
#[derive(Debug, PartialEq)]
pub struct ConversationParameters {
    pub system_prompt: Option<String>,
    pub start_response_with: Option<String>,
    pub token_limit: Option<usize>,
    pub temperature: Option<Decimal>,
    pub top_k: Option<usize>,
    pub top_p: Option<Decimal>,
    pub repetition_penalty: Option<Decimal>,
}

impl Clone for ConversationParameters {
    fn clone(&self) -> (r: Self)
        ensures
            r == *self,
    {
        ConversationParameters {
            system_prompt: self.system_prompt.clone(),
            start_response_with: self.start_response_with.clone(),
            token_limit: self.token_limit,
            temperature: self.temperature,
            top_k: self.top_k,
            top_p: self.top_p,
            repetition_penalty: self.repetition_penalty,
        }
    }
}

impl ConversationParameters {
    /// The all-unset parameter record.
    pub open spec fn spec_default() -> ConversationParameters {
        ConversationParameters {
            system_prompt: None,
            start_response_with: None,
            token_limit: None,
            temperature: None,
            top_k: None,
            top_p: None,
            repetition_penalty: None,
        }
    }
}

impl Default for ConversationParameters {
    /// All parameters unset: the backend's defaults apply.
    fn default() -> (r: Self)
        ensures
            r == ConversationParameters::spec_default(),
    {
        ConversationParameters {
            system_prompt: None,
            start_response_with: None,
            token_limit: None,
            temperature: None,
            top_k: None,
            top_p: None,
            repetition_penalty: None,
        }
    }
}

} // verus!
