//! Canonical decimal rendering of integers and the JSON envelope that
//! wraps every stored value.
//!
//! Keys are namespaced strings whose tail is the key's canonical decimal
//! form; values travel as the one-field JSON object `{"value":<v>}` so
//! that any serializable shape, primitives included, round-trips through
//! the store's string-based storage without ambiguity.

use vstd::prelude::*;

verus! {

/// The character for one decimal digit.
pub open spec fn digit_char(d: int) -> char {
    if d == 0 { '0' }
    else if d == 1 { '1' }
    else if d == 2 { '2' }
    else if d == 3 { '3' }
    else if d == 4 { '4' }
    else if d == 5 { '5' }
    else if d == 6 { '6' }
    else if d == 7 { '7' }
    else if d == 8 { '8' }
    else { '9' }
}

/// The digit a character denotes, or -1 for a non-digit.
pub open spec fn char_digit(c: char) -> int {
    if c == '0' { 0 }
    else if c == '1' { 1 }
    else if c == '2' { 2 }
    else if c == '3' { 3 }
    else if c == '4' { 4 }
    else if c == '5' { 5 }
    else if c == '6' { 6 }
    else if c == '7' { 7 }
    else if c == '8' { 8 }
    else if c == '9' { 9 }
    else { -1 }
}

pub open spec fn is_digit(c: char) -> bool {
    char_digit(c) >= 0
}

/// The canonical decimal form of a non-negative integer: no sign, no
/// leading zeros, and `0` itself is the single character `'0'`.
pub open spec fn decimal_of(n: int) -> Seq<char>
    decreases n,
{
    if n <= 0 {
        seq!['0']
    } else if n < 10 {
        seq![digit_char(n)]
    } else {
        decimal_of(n / 10).push(digit_char(n % 10))
    }
}

/// The integer a digit string denotes, most significant digit first.
pub open spec fn digits_val(s: Seq<char>) -> int
    decreases s.len(),
{
    if s.len() == 0 {
        0
    } else {
        digits_val(s.drop_last()) * 10 + char_digit(s.last())
    }
}

pub open spec fn all_digits(s: Seq<char>) -> bool {
    forall|i: int| 0 <= i < s.len() ==> is_digit(#[trigger] s[i])
}

/// A string is a canonical decimal u64: digits only, no leading zero,
/// and its value fits in a u64.
pub open spec fn is_canonical_decimal(s: Seq<char>) -> bool {
    &&& s.len() > 0
    &&& all_digits(s)
    &&& (s.len() > 1 ==> s[0] != '0')
    &&& digits_val(s) <= u64::MAX
}

/// The u64 a string denotes, if it is a canonical decimal.
pub open spec fn decimal_value(s: Seq<char>) -> Option<u64> {
    if is_canonical_decimal(s) {
        Some(digits_val(s) as u64)
    } else {
        None
    }
}

/// The canonical decimal form of `n` denotes `n` and is canonical.
pub proof fn lemma_decimal_of_canonical(n: u64)
    ensures
        is_canonical_decimal(decimal_of(n as int)),
        decimal_value(decimal_of(n as int)) == Some(n),
{
    lemma_decimal_of_val(n as int);
}

proof fn lemma_decimal_of_val(n: int)
    requires
        0 <= n,
    ensures
        decimal_of(n).len() > 0,
        all_digits(decimal_of(n)),
        digits_val(decimal_of(n)) == n,
        decimal_of(n)[0] == '0' ==> n == 0,
        n == 0 ==> decimal_of(n).len() == 1,
    decreases n,
{
    if n < 10 {
        let s = decimal_of(n);
        assert(s.len() == 1);
        assert(s.drop_last() =~= Seq::<char>::empty());
        assert(digits_val(Seq::<char>::empty()) == 0);
        assert(s.last() == digit_char(n));
        assert(digits_val(s) == digits_val(s.drop_last()) * 10 + char_digit(s.last()));
        assert(digits_val(s) == char_digit(digit_char(n)));
    } else {
        lemma_decimal_of_val(n / 10);
        let p = decimal_of(n / 10);
        let s = decimal_of(n);
        assert(s == p.push(digit_char(n % 10)));
        assert(s.drop_last() =~= p);
        assert(s.last() == digit_char(n % 10));
        assert(digits_val(s) == digits_val(p) * 10 + char_digit(digit_char(n % 10)));
        assert(char_digit(digit_char(n % 10)) == n % 10);
        assert(digits_val(s) == (n / 10) * 10 + n % 10);
        assert((n / 10) * 10 + n % 10 == n) by (nonlinear_arith);
        assert(s[0] == p[0]);
        assert forall|i: int| 0 <= i < s.len() implies is_digit(#[trigger] s[i]) by {
            if i < p.len() {
                assert(s[i] == p[i]);
            } else {
                assert(s[i] == digit_char(n % 10));
            }
        }
    }
}

proof fn lemma_digits_val_nonneg(s: Seq<char>)
    requires
        all_digits(s),
    ensures
        digits_val(s) >= 0,
    decreases s.len(),
{
    if s.len() > 0 {
        assert(forall|i: int| 0 <= i < s.drop_last().len() ==> is_digit(#[trigger] s.drop_last()[i]));
        lemma_digits_val_nonneg(s.drop_last());
        assert(is_digit(s.last()));
    }
}

/// Reading one more digit multiplies the prefix value by ten and adds it.
proof fn lemma_digits_val_take_step(s: Seq<char>, i: int)
    requires
        0 <= i < s.len(),
    ensures
        digits_val(s.take(i + 1)) == digits_val(s.take(i)) * 10 + char_digit(s[i]),
{
    assert(s.take(i + 1).drop_last() =~= s.take(i));
    assert(s.take(i + 1).last() == s[i]);
}

/// The value of a digit string is at least the value of any of its prefixes.
proof fn lemma_digits_val_prefix_le(s: Seq<char>, i: int)
    requires
        0 <= i <= s.len(),
        all_digits(s),
    ensures
        digits_val(s.take(i)) <= digits_val(s),
    decreases s.len() - i,
{
    if i == s.len() {
        assert(s.take(i) =~= s);
    } else {
        let p = s.take(i);
        assert(forall|j: int| 0 <= j < p.len() ==> is_digit(#[trigger] p[j]));
        lemma_digits_val_nonneg(p);
        lemma_digits_val_take_step(s, i);
        assert(is_digit(s[i]));
        assert(digits_val(p) * 10 >= digits_val(p)) by (nonlinear_arith)
            requires digits_val(p) >= 0;
        lemma_digits_val_prefix_le(s, i + 1);
    }
}

/// The digit a character denotes, if any.
fn char_digit_exec(c: char) -> (r: Option<u64>)
    ensures
        match r {
            Some(d) => is_digit(c) && char_digit(c) == d,
            None => !is_digit(c),
        },
{
    if c == '0' { Some(0) }
    else if c == '1' { Some(1) }
    else if c == '2' { Some(2) }
    else if c == '3' { Some(3) }
    else if c == '4' { Some(4) }
    else if c == '5' { Some(5) }
    else if c == '6' { Some(6) }
    else if c == '7' { Some(7) }
    else if c == '8' { Some(8) }
    else if c == '9' { Some(9) }
    else { None }
}

/// Parse a canonical decimal u64; anything else is rejected.
pub fn parse_u64(s: &str) -> (r: Option<u64>)
    ensures
        r == decimal_value(s@),
{
    let n = s.unicode_len();
    if n == 0 {
        return None;
    }
    if n > 1 && s.get_char(0) == '0' {
        return None;
    }
    let mut acc: u64 = 0;
    let mut i: usize = 0;
    while i < n
        invariant
            0 <= i <= n,
            n == s@.len(),
            forall|j: int| 0 <= j < i ==> is_digit(#[trigger] s@[j]),
            acc == digits_val(s@.take(i as int)),
        decreases n - i,
    {
        let c = s.get_char(i);
        match char_digit_exec(c) {
            None => {
                proof {
                    assert(!is_digit(s@[i as int]));
                    assert(!all_digits(s@));
                }
                return None;
            },
            Some(d) => {
                proof {
                    lemma_digits_val_take_step(s@, i as int);
                }
                match acc.checked_mul(10) {
                    None => {
                        proof {
                            lemma_overflow_means_not_canonical(s@, i as int, acc as int, d as int);
                        }
                        return None;
                    },
                    Some(t) => {
                        match t.checked_add(d) {
                            None => {
                                proof {
                                    lemma_overflow_means_not_canonical(s@, i as int, acc as int, d as int);
                                }
                                return None;
                            },
                            Some(v) => {
                                acc = v;
                            },
                        }
                    },
                }
            },
        }
        i = i + 1;
    }
    proof {
        assert(s@.take(n as int) =~= s@);
        assert(is_canonical_decimal(s@));
    }
    Some(acc)
}

/// A digit string whose prefix already exceeds u64 range is not canonical.
proof fn lemma_overflow_means_not_canonical(s: Seq<char>, i: int, acc: int, d: int)
    requires
        0 <= i < s.len(),
        forall|j: int| 0 <= j < i ==> is_digit(#[trigger] s[j]),
        acc == digits_val(s.take(i)),
        char_digit(s[i]) == d,
        acc * 10 + d > u64::MAX,
    ensures
        !is_canonical_decimal(s),
{
    if all_digits(s) {
        lemma_digits_val_take_step(s, i);
        lemma_digits_val_prefix_le(s, i + 1);
        assert(digits_val(s) > u64::MAX);
    }
}

/// A one-character string for one decimal digit.
fn digit_str(d: u64) -> (r: &'static str)
    requires
        d < 10,
    ensures
        r@ =~= seq![digit_char(d as int)],
{
    proof {
        reveal_strlit("0");
        reveal_strlit("1");
        reveal_strlit("2");
        reveal_strlit("3");
        reveal_strlit("4");
        reveal_strlit("5");
        reveal_strlit("6");
        reveal_strlit("7");
        reveal_strlit("8");
        reveal_strlit("9");
    }
    if d == 0 { "0" }
    else if d == 1 { "1" }
    else if d == 2 { "2" }
    else if d == 3 { "3" }
    else if d == 4 { "4" }
    else if d == 5 { "5" }
    else if d == 6 { "6" }
    else if d == 7 { "7" }
    else if d == 8 { "8" }
    else { "9" }
}

/// Render `n` in its canonical decimal form.
pub fn format_u64(n: u64) -> (s: String)
    ensures
        s@ == decimal_of(n as int),
    decreases n,
{
    if n < 10 {
        let s = String::from_str(digit_str(n));
        proof {
            assert(s@ =~= decimal_of(n as int));
        }
        s
    } else {
        let mut s = format_u64(n / 10);
        s.append(digit_str(n % 10));
        proof {
            assert(s@ =~= decimal_of(n as int / 10).push(digit_char(n as int % 10)));
        }
        s
    }
}

/// The opening frame of the storage envelope `{"value":<v>}`.
pub open spec fn envelope_prefix() -> Seq<char> {
    "{\"value\":"@
}

/// The storage envelope around an encoded value.
pub open spec fn envelope_of(inner: Seq<char>) -> Seq<char> {
    envelope_prefix() + inner + "}"@
}

/// The encoded value inside a storage envelope, if the text is one.
pub open spec fn envelope_inner(s: Seq<char>) -> Option<Seq<char>> {
    if s.len() > envelope_prefix().len()
        && s.take(envelope_prefix().len() as int) == envelope_prefix()
        && s.last() == '}'
    {
        Some(s.subrange(envelope_prefix().len() as int, s.len() - 1))
    } else {
        None
    }
}

/// Framing a value and reading the frame back are inverse.
pub proof fn lemma_envelope_round_trip(inner: Seq<char>)
    ensures
        envelope_inner(envelope_of(inner)) == Some(inner),
{
    reveal_strlit("{\"value\":");
    reveal_strlit("}");
    let s = envelope_of(inner);
    assert(s.take(envelope_prefix().len() as int) =~= envelope_prefix());
    assert(s.last() == '}');
    assert(s.subrange(envelope_prefix().len() as int, s.len() - 1) =~= inner);
}

/// Wrap an encoded value in the storage envelope.
pub fn envelope_encode(inner: &str) -> (r: String)
    ensures
        r@ == envelope_of(inner@),
{
    let mut s = String::from_str("{\"value\":");
    s.append(inner);
    s.append("}");
    proof {
        assert(s@ =~= envelope_of(inner@));
    }
    s
}

/// Read the encoded value out of a storage envelope, or report that the
/// text is not one.
pub fn envelope_decode<'a>(s: &'a str) -> (r: Option<&'a str>)
    ensures
        match r {
            Some(t) => envelope_inner(s@) == Some(t@),
            None => envelope_inner(s@) is None,
        },
{
    proof {
        reveal_strlit("{\"value\":");
    }
    let p = "{\"value\":";
    let plen = p.unicode_len();
    assert(plen == envelope_prefix().len());
    let n = s.unicode_len();
    if n <= plen {
        return None;
    }
    let mut i: usize = 0;
    while i < plen
        invariant
            0 <= i <= plen,
            plen < n == s@.len(),
            plen == envelope_prefix().len(),
            p@ == envelope_prefix(),
            forall|j: int| 0 <= j < i ==> s@[j] == #[trigger] envelope_prefix()[j],
        decreases plen - i,
    {
        if s.get_char(i) != p.get_char(i) {
            proof {
                assert(s@.take(envelope_prefix().len() as int)[i as int] != envelope_prefix()[i as int]);
            }
            return None;
        }
        i = i + 1;
    }
    if s.get_char(n - 1) != '}' {
        return None;
    }
    proof {
        assert(s@.take(envelope_prefix().len() as int) =~= envelope_prefix());
    }
    Some(s.substring_char(plen, n - 1))
}

/// Relies on `serde_json::to_string` for `u64`: a u64 serializes as the
/// JSON number in its canonical decimal form, and serialization of a
/// plain integer cannot fail.
#[verifier::external_body]
pub fn json_encode_u64(v: u64) -> (r: String)
    ensures
        r@ == decimal_of(v as int),
{
    serde_json::to_string(&v).expect("serializing an integer cannot fail")
}

/// A cache key. Two equal keys must render the same canonical string,
/// or lookups under the namespaced key miss.
pub trait CacheKey {
    /// The key's canonical string form.
    spec fn key_spec(&self) -> Seq<char>;

    /// Render the canonical string form.
    fn key_string(&self) -> (s: String)
        ensures
            s@ == self.key_spec(),
    ;
}

/// A cache value: it encodes to the text stored inside the envelope and
/// decodes back, and decoding its own encoding yields it again.
pub trait CacheValue: Sized {
    /// The value's encoded text.
    spec fn encoding(&self) -> Seq<char>;

    /// The value an encoded text denotes, if any.
    spec fn decoded(s: Seq<char>) -> Option<Self>;

    /// Encode the value.
    fn encode(&self) -> (s: String)
        ensures
            s@ == self.encoding(),
    ;

    /// Decode an encoded text.
    fn decode(s: &str) -> (r: Option<Self>)
        ensures
            r == Self::decoded(s@),
    ;

    /// Encoding then decoding reproduces the value.
    proof fn lemma_round_trip(&self)
        ensures
            Self::decoded(self.encoding()) == Some(*self),
    ;
}

impl CacheKey for u64 {
    open spec fn key_spec(&self) -> Seq<char> {
        decimal_of(*self as int)
    }

    fn key_string(&self) -> (s: String) {
        format_u64(*self)
    }
}

impl CacheValue for u64 {
    open spec fn encoding(&self) -> Seq<char> {
        decimal_of(*self as int)
    }

    open spec fn decoded(s: Seq<char>) -> Option<u64> {
        decimal_value(s)
    }

    fn encode(&self) -> (s: String) {
        json_encode_u64(*self)
    }

    fn decode(s: &str) -> (r: Option<u64>) {
        parse_u64(s)
    }

    proof fn lemma_round_trip(&self) {
        lemma_decimal_of_canonical(*self);
    }
}

impl CacheKey for String {
    open spec fn key_spec(&self) -> Seq<char> {
        self@
    }

    fn key_string(&self) -> (s: String) {
        self.clone()
    }
}

impl CacheKey for u32 {
    open spec fn key_spec(&self) -> Seq<char> {
        decimal_of(*self as int)
    }

    fn key_string(&self) -> (s: String) {
        format_u64(*self as u64)
    }
}

impl CacheValue for u32 {
    open spec fn encoding(&self) -> Seq<char> {
        decimal_of(*self as int)
    }

    open spec fn decoded(s: Seq<char>) -> Option<u32> {
        match decimal_value(s) {
            Some(n) => if n <= u32::MAX { Some(n as u32) } else { None },
            None => None,
        }
    }

    fn encode(&self) -> (s: String) {
        json_encode_u64(*self as u64)
    }

    fn decode(s: &str) -> (r: Option<u32>) {
        match parse_u64(s) {
            Some(n) => {
                if n <= u32::MAX as u64 {
                    Some(n as u32)
                } else {
                    None
                }
            },
            None => None,
        }
    }

    proof fn lemma_round_trip(&self) {
        lemma_decimal_of_canonical(*self as u64);
    }
}

/// The value a stored text denotes: the text must be a well-formed
/// envelope and its inside a well-formed encoding.
pub open spec fn stored_decoded<V: CacheValue>(s: Seq<char>) -> Option<V> {
    match envelope_inner(s) {
        Some(inner) => V::decoded(inner),
        None => None,
    }
}

/// A value framed in the envelope decodes back to itself.
pub proof fn lemma_stored_round_trip<V: CacheValue>(v: V)
    ensures
        stored_decoded::<V>(envelope_of(v.encoding())) == Some(v),
{
    lemma_envelope_round_trip(v.encoding());
    v.lemma_round_trip();
}

} // verus!
