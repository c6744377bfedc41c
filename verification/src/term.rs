//! Arbitrary-precision signed integer terms of a sequence, with verified
//! decimal parsing and rendering.
//!
//! A [`Term`] stores a sign and decimal digits, most significant first, in
//! canonical form: no leading zeros and no negative zero. Its mathematical
//! value is unbounded; nothing is truncated to machine-word width.

use vstd::prelude::*;

use crate::error::DecodeError;
use crate::text::char_digit;
use crate::text::comma_tokens;
use crate::text::digit_char;
use crate::text::digit_val;
use crate::text::is_digit;
use crate::text::lemma_digit_char_val;
use crate::text::lemma_nonempty_segs_add;
use crate::text::lemma_nonempty_segs_single;
use crate::text::lemma_split_first_comma;
use crate::text::lemma_split_no_comma;
use crate::text::push_digit;

verus! {

/// The value of decimal digits (each `0..=9`), most significant first.
pub open spec fn digits_val(ds: Seq<u8>) -> int
    decreases ds.len(),
{
    if ds.len() == 0 {
        0
    } else {
        digits_val(ds.drop_last()) * 10 + ds.last()
    }
}

/// The value of decimal digit characters, most significant first.
pub open spec fn char_digits_val(s: Seq<char>) -> int
    decreases s.len(),
{
    if s.len() == 0 {
        0
    } else {
        char_digits_val(s.drop_last()) * 10 + digit_val(s.last())
    }
}

/// Every character of `s` is a decimal digit.
pub open spec fn all_digits(s: Seq<char>) -> bool {
    forall|i: int| 0 <= i < s.len() ==> is_digit(s[i])
}

/// `s` starts with an explicit sign character.
pub open spec fn has_sign(s: Seq<char>) -> bool {
    s.len() > 0 && (s[0] == '-' || s[0] == '+')
}

/// `s` without its sign character, if any.
pub open spec fn token_body(s: Seq<char>) -> Seq<char> {
    if has_sign(s) {
        s.drop_first()
    } else {
        s
    }
}

/// `s` is a well-formed integer token: an optional sign followed by at
/// least one decimal digit.
pub open spec fn is_int_token(s: Seq<char>) -> bool {
    token_body(s).len() > 0 && all_digits(token_body(s))
}

/// The signed value of an integer token.
pub open spec fn token_val(s: Seq<char>) -> int {
    if s.len() > 0 && s[0] == '-' {
        -char_digits_val(token_body(s))
    } else {
        char_digits_val(token_body(s))
    }
}

/// An arbitrary-precision signed integer: a term of a sequence.
#[derive(Debug, Clone, PartialEq, Eq)]
pub struct Term {
    /// The value is negative.
    pub negative: bool,
    /// Decimal digits of the magnitude, most significant first.
    pub digits: Vec<u8>,
}

impl Term {
    /// Canonical form: at least one digit, each `0..=9`, no leading zero,
    /// and no negative zero.
    pub open spec fn well_formed(self) -> bool {
        &&& self.digits@.len() > 0
        &&& (forall|i: int| 0 <= i < self.digits@.len() ==> self.digits@[i] <= 9)
        &&& (self.digits@.len() > 1 ==> self.digits@[0] > 0)
        &&& (self.negative ==> !(self.digits@.len() == 1 && self.digits@[0] == 0))
    }

    /// The mathematical value of this term.
    pub open spec fn value(self) -> int {
        if self.negative {
            -digits_val(self.digits@)
        } else {
            digits_val(self.digits@)
        }
    }

    /// The canonical decimal text of this term.
    pub open spec fn chars(self) -> Seq<char> {
        (if self.negative {
            seq!['-']
        } else {
            Seq::<char>::empty()
        }) + digit_chars(self.digits@)
    }

    /// Render this term as canonical decimal text.
    pub fn to_decimal_string(&self) -> (r: String)
        requires
            self.well_formed(),
        ensures
            r@ == self.chars(),
    {
        let mut out = String::new();
        if self.negative {
            proof {
                reveal_strlit("-");
                assert("-"@ =~= seq!['-']);
            }
            out.append("-");
        }
        let ghost sign: Seq<char> = if self.negative {
            seq!['-']
        } else {
            Seq::<char>::empty()
        };
        proof {
            assert(out@ =~= sign + digit_chars(self.digits@.take(0)));
        }
        let mut i: usize = 0;
        while i < self.digits.len()
            invariant
                self.well_formed(),
                i <= self.digits@.len(),
                sign == if self.negative {
                    seq!['-']
                } else {
                    Seq::<char>::empty()
                },
                out@ == sign + digit_chars(self.digits@.take(i as int)),
            decreases self.digits@.len() - i,
        {
            push_digit(&mut out, self.digits[i]);
            proof {
                assert(digit_chars(self.digits@.take(i + 1 as int)) =~= digit_chars(
                    self.digits@.take(i as int),
                ) + seq![digit_char(self.digits@[i as int])]);
                assert(out@ =~= sign + digit_chars(self.digits@.take(i + 1 as int)));
            }
            i += 1;
        }
        proof {
            assert(self.digits@.take(self.digits@.len() as int) =~= self.digits@);
        }
        out
    }
}

/// The digit characters of digit values.
pub open spec fn digit_chars(ds: Seq<u8>) -> Seq<char> {
    Seq::new(ds.len(), |i: int| digit_char(ds[i]))
}

/// A leading zero character does not change the value.
proof fn lemma_cdv_zero_prefix_one(t: Seq<char>)
    ensures
        char_digits_val(seq!['0'] + t) == char_digits_val(t),
    decreases t.len(),
{
    if t.len() == 0 {
        reveal_with_fuel(char_digits_val, 3);
        assert(seq!['0'] + t =~= seq!['0']);
        assert((seq!['0']).drop_last() =~= Seq::<char>::empty());
    } else {
        assert((seq!['0'] + t).drop_last() =~= seq!['0'] + t.drop_last());
        lemma_cdv_zero_prefix_one(t.drop_last());
    }
}

/// Leading zero characters do not change the value.
pub proof fn lemma_cdv_zero_prefix(zs: Seq<char>, t: Seq<char>)
    requires
        forall|i: int| 0 <= i < zs.len() ==> zs[i] == '0',
    ensures
        char_digits_val(zs + t) == char_digits_val(t),
    decreases zs.len(),
{
    if zs.len() == 0 {
        assert(zs + t =~= t);
    } else {
        assert(zs + t =~= seq!['0'] + (zs.drop_first() + t));
        lemma_cdv_zero_prefix_one(zs.drop_first() + t);
        lemma_cdv_zero_prefix(zs.drop_first(), t);
    }
}

/// The value of the digit characters of digit values.
pub proof fn lemma_cdv_digit_chars(ds: Seq<u8>)
    requires
        forall|i: int| 0 <= i < ds.len() ==> ds[i] <= 9,
    ensures
        char_digits_val(digit_chars(ds)) == digits_val(ds),
    decreases ds.len(),
{
    if ds.len() == 0 {
        assert(digit_chars(ds) =~= Seq::<char>::empty());
    } else {
        assert(digit_chars(ds).drop_last() =~= digit_chars(ds.drop_last()));
        lemma_cdv_digit_chars(ds.drop_last());
        lemma_digit_char_val(ds.last());
    }
}

/// Ten to the `n`.
pub open spec fn pow10(n: nat) -> int
    decreases n,
{
    if n == 0 {
        1
    } else {
        10 * pow10((n - 1) as nat)
    }
}

proof fn lemma_pow10_pos(n: nat)
    ensures
        pow10(n) >= 1,
    decreases n,
{
    if n > 0 {
        lemma_pow10_pos((n - 1) as nat);
    }
}

proof fn lemma_pow10_mono(m: nat, n: nat)
    requires
        m <= n,
    ensures
        pow10(m) <= pow10(n),
    decreases n,
{
    if m < n {
        lemma_pow10_mono(m, (n - 1) as nat);
        lemma_pow10_pos((n - 1) as nat);
    }
}

/// Bounds on the value of a digit sequence.
proof fn lemma_digits_val_bounds(ds: Seq<u8>)
    requires
        forall|i: int| 0 <= i < ds.len() ==> ds[i] <= 9,
    ensures
        0 <= digits_val(ds) < pow10(ds.len() as nat),
        ds.len() > 0 && ds[0] > 0 ==> digits_val(ds) >= pow10((ds.len() - 1) as nat),
    decreases ds.len(),
{
    if ds.len() > 0 {
        lemma_digits_val_bounds(ds.drop_last());
    }
}

/// Digit sequences in canonical form (no leading zero) with equal values
/// are equal.
proof fn lemma_digits_val_injective(a: Seq<u8>, b: Seq<u8>)
    requires
        a.len() >= 1,
        b.len() >= 1,
        forall|i: int| 0 <= i < a.len() ==> a[i] <= 9,
        forall|i: int| 0 <= i < b.len() ==> b[i] <= 9,
        a.len() > 1 ==> a[0] > 0,
        b.len() > 1 ==> b[0] > 0,
        digits_val(a) == digits_val(b),
    ensures
        a =~= b,
    decreases a.len(),
{
    lemma_digits_val_bounds(a);
    lemma_digits_val_bounds(b);
    if a.len() < b.len() {
        lemma_pow10_mono(a.len() as nat, (b.len() - 1) as nat);
        assert(false);
    } else if b.len() < a.len() {
        lemma_pow10_mono(b.len() as nat, (a.len() - 1) as nat);
        assert(false);
    } else if a.len() == 1 {
        assert(a =~= b);
    } else {
        lemma_digits_val_injective(a.drop_last(), b.drop_last());
        assert(a =~= a.drop_last().push(a.last()));
        assert(b =~= b.drop_last().push(b.last()));
    }
}

/// Well-formed terms with equal values are equal.
pub proof fn lemma_term_value_injective(a: Term, b: Term)
    requires
        a.well_formed(),
        b.well_formed(),
        a.value() == b.value(),
    ensures
        a.negative == b.negative,
        a.digits@ == b.digits@,
{
    lemma_digits_val_bounds(a.digits@);
    lemma_digits_val_bounds(b.digits@);
    lemma_term_digits_pos(a);
    lemma_term_digits_pos(b);
    lemma_digits_val_injective(a.digits@, b.digits@);
}

/// A well-formed negative term has positive magnitude.
proof fn lemma_term_digits_pos(t: Term)
    requires
        t.well_formed(),
    ensures
        t.negative ==> digits_val(t.digits@) > 0,
        t.negative ==> t.value() < 0,
        !t.negative ==> t.value() >= 0,
{
    lemma_digits_val_bounds(t.digits@);
    if t.negative && t.digits@.len() > 1 {
        lemma_pow10_mono(1, (t.digits@.len() - 1) as nat);
    }
}

/// Parse one integer token as a [`Term`]. A string that is not an integer
/// token is rejected as an [`DecodeError::InvalidTerm`] carrying it.
pub fn parse_term(s: &str) -> (r: Result<Term, DecodeError>)
    ensures
        is_int_token(s@) ==> (r matches Ok(t) && t.well_formed() && t.value() == token_val(s@)),
        !is_int_token(s@) ==> (r matches Err(e) && e matches DecodeError::InvalidTerm(w) && w@
            == s@),
{
    let n = s.unicode_len();
    let mut start: usize = 0;
    let mut neg = false;
    if n > 0 {
        let c0 = s.get_char(0);
        if c0 == '-' {
            neg = true;
            start = 1;
        } else if c0 == '+' {
            start = 1;
        }
    }
    proof {
        assert(has_sign(s@) ==> start == 1);
        assert(!has_sign(s@) ==> start == 0);
        assert(token_body(s@) =~= s@.skip(start as int));
        assert(neg <==> (s@.len() > 0 && s@[0] == '-'));
    }
    if start == n {
        proof {
            assert(token_body(s@).len() == 0);
        }
        return Err(DecodeError::InvalidTerm(s.to_owned()));
    }
    let mut i: usize = start;
    while i < n
        invariant
            n == s@.len(),
            start <= i <= n,
            forall|j: int| start <= j < i ==> is_digit(s@[j]),
            token_body(s@) == s@.skip(start as int),
        decreases n - i,
    {
        if char_digit(s.get_char(i)).is_none() {
            proof {
                assert(token_body(s@)[i - start as int] == s@[i as int]);
            }
            return Err(DecodeError::InvalidTerm(s.to_owned()));
        }
        i += 1;
    }
    let mut z: usize = start;
    while z + 1 < n && s.get_char(z) == '0'
        invariant
            n == s@.len(),
            start <= z < n,
            forall|j: int| start <= j < z ==> s@[j] == '0',
        decreases n - z,
    {
        z += 1;
    }
    let mut digits: Vec<u8> = Vec::new();
    let mut k: usize = z;
    proof {
        assert(s@.subrange(z as int, z as int) =~= Seq::<char>::empty());
    }
    while k < n
        invariant
            n == s@.len(),
            start <= z < n,
            z <= k <= n,
            forall|j: int| start <= j < n ==> is_digit(s@[j]),
            digits@.len() == k - z,
            forall|j: int| 0 <= j < digits@.len() ==> digits@[j] <= 9,
            forall|j: int| 0 <= j < digits@.len() ==> digits@[j] as int == digit_val(
                s@[z + j],
            ),
            digits_val(digits@) == char_digits_val(s@.subrange(z as int, k as int)),
        decreases n - k,
    {
        let c = s.get_char(k);
        let d = char_digit(c).unwrap();
        proof {
            assert(s@.subrange(z as int, k + 1 as int).drop_last() =~= s@.subrange(
                z as int,
                k as int,
            ));
            assert(digits@.push(d).drop_last() =~= digits@);
        }
        digits.push(d);
        k += 1;
    }
    let negative = if neg {
        !(digits.len() == 1 && digits[0] == 0)
    } else {
        false
    };
    let t = Term { negative, digits };
    proof {
        // the skipped prefix is all zeros and does not change the value
        let zeros = s@.subrange(start as int, z as int);
        let rest = s@.subrange(z as int, n as int);
        lemma_cdv_zero_prefix(zeros, rest);
        assert(zeros + rest =~= s@.subrange(start as int, n as int));
        assert(s@.skip(start as int) =~= s@.subrange(start as int, n as int));
        assert(char_digits_val(token_body(s@)) == digits_val(t.digits@));
        // a multi-digit magnitude starts with a non-zero digit
        if t.digits@.len() > 1 {
            assert(s@[z as int] != '0');
            assert(t.digits@[0] as int == digit_val(s@[z as int]));
        }
        assert(t.well_formed());
        if neg && digits@.len() == 1 && digits@[0] == 0 {
            reveal_with_fuel(digits_val, 2);
            assert(digits@.drop_last() =~= Seq::<u8>::empty());
            assert(digits_val(digits@) == 0);
        }
        assert(t.value() == token_val(s@));
    }
    Ok(t)
}

/// The terms rendered as decimal text, joined by `sep`.
pub open spec fn joined_terms(ts: Seq<Term>, sep: Seq<char>) -> Seq<char>
    decreases ts.len(),
{
    if ts.len() == 0 {
        Seq::<char>::empty()
    } else if ts.len() == 1 {
        ts[0].chars()
    } else {
        ts[0].chars() + sep + joined_terms(ts.drop_first(), sep)
    }
}

proof fn lemma_joined_terms_push(ts: Seq<Term>, sep: Seq<char>, t: Term)
    ensures
        joined_terms(ts.push(t), sep) =~= if ts.len() == 0 {
            t.chars()
        } else {
            joined_terms(ts, sep) + sep + t.chars()
        },
    decreases ts.len(),
{
    if ts.len() == 0 {
        assert(ts.push(t)[0] == t);
    } else {
        assert(ts.push(t).drop_first() =~= ts.drop_first().push(t));
        lemma_joined_terms_push(ts.drop_first(), sep, t);
    }
}

/// Render the terms as decimal text joined by `sep`.
pub fn join_terms(terms: &Vec<Term>, sep: &str) -> (r: String)
    requires
        forall|i: int| 0 <= i < terms@.len() ==> terms@[i].well_formed(),
    ensures
        r@ == joined_terms(terms@, sep@),
{
    let mut out = String::new();
    proof {
        assert(out@ =~= joined_terms(terms@.take(0), sep@));
    }
    let mut i: usize = 0;
    while i < terms.len()
        invariant
            forall|j: int| 0 <= j < terms@.len() ==> terms@[j].well_formed(),
            i <= terms@.len(),
            out@ == joined_terms(terms@.take(i as int), sep@),
        decreases terms@.len() - i,
    {
        if i > 0 {
            out.append(sep);
        }
        let piece = terms[i].to_decimal_string();
        out.append(piece.as_str());
        proof {
            assert(terms@.take(i + 1 as int) =~= terms@.take(i as int).push(terms@[i as int]));
            lemma_joined_terms_push(terms@.take(i as int), sep@, terms@[i as int]);
        }
        i += 1;
    }
    proof {
        assert(terms@.take(terms@.len() as int) =~= terms@);
    }
    out
}

/// The canonical text of a well-formed term is a comma-free integer token
/// denoting the term's value.
pub proof fn lemma_term_chars_token(t: Term)
    requires
        t.well_formed(),
    ensures
        t.chars().len() > 0,
        forall|i: int| 0 <= i < t.chars().len() ==> #[trigger] t.chars()[i] != ',',
        is_int_token(t.chars()),
        token_val(t.chars()) == t.value(),
{
    lemma_cdv_digit_chars(t.digits@);
    let dc = digit_chars(t.digits@);
    assert forall|i: int| 0 <= i < dc.len() implies is_digit(#[trigger] dc[i]) && dc[i] != ','
        && dc[i] != '-' && dc[i] != '+' by {
        lemma_digit_char_val(t.digits@[i]);
    }
    if t.negative {
        assert(t.chars()[0] == '-');
        assert(token_body(t.chars()) =~= dc);
        assert forall|i: int| 0 <= i < t.chars().len() implies #[trigger] t.chars()[i] != ',' by {
            if i > 0 {
                assert(t.chars()[i] == dc[i - 1]);
            }
        }
    } else {
        assert(t.chars() =~= dc);
        assert(!has_sign(t.chars()));
        assert(token_body(t.chars()) =~= dc);
    }
}

/// The non-empty comma segments of a comma-joined rendering of well-formed
/// terms are exactly their tokens, one per term, in order.
pub proof fn lemma_encode_tokens(ts: Seq<Term>)
    requires
        forall|i: int| 0 <= i < ts.len() ==> (#[trigger] ts[i]).well_formed(),
    ensures
        comma_tokens(joined_terms(ts, seq![','])).len() == ts.len(),
        forall|i: int|
            0 <= i < ts.len() ==> is_int_token(
                #[trigger] comma_tokens(joined_terms(ts, seq![',']))[i],
            ) && token_val(comma_tokens(joined_terms(ts, seq![',']))[i]) == ts[i].value(),
    decreases ts.len(),
{
    let sep = seq![','];
    let s = joined_terms(ts, sep);
    if ts.len() == 0 {
        lemma_nonempty_segs_single(Seq::<char>::empty());
    } else if ts.len() == 1 {
        lemma_term_chars_token(ts[0]);
        lemma_split_no_comma(ts[0].chars());
        lemma_nonempty_segs_single(ts[0].chars());
    } else {
        let head = ts[0];
        let rest = ts.drop_first();
        lemma_term_chars_token(head);
        let hl = head.chars().len() as int;
        assert(s =~= head.chars() + sep + joined_terms(rest, sep));
        assert(s[hl] == ',');
        assert forall|j: int| 0 <= j < hl implies s[j] != ',' by {
            assert(s[j] == head.chars()[j]);
        }
        lemma_split_first_comma(s, hl);
        assert(s.take(hl) =~= head.chars());
        assert(s.skip(hl + 1) =~= joined_terms(rest, sep));
        lemma_nonempty_segs_add(
            seq![head.chars()],
            crate::text::split_commas(joined_terms(rest, sep)),
        );
        lemma_nonempty_segs_single(head.chars());
        assert forall|i: int| 0 <= i < rest.len() implies (#[trigger] rest[i]).well_formed() by {
            assert(rest[i] == ts[i + 1]);
        }
        lemma_encode_tokens(rest);
        assert(comma_tokens(s) =~~= seq![head.chars()] + comma_tokens(joined_terms(rest, sep)));
        assert forall|i: int|
            0 <= i < ts.len() implies is_int_token(#[trigger] comma_tokens(s)[i]) && token_val(
            comma_tokens(s)[i],
        ) == ts[i].value() by {
            if i > 0 {
                assert(comma_tokens(s)[i] == comma_tokens(joined_terms(rest, sep))[i - 1]);
                assert(ts[i] == rest[i - 1]);
            }
        }
    }
}

/// Round trip: rendering well-formed terms as a comma-joined string and
/// decoding its tokens back as well-formed terms reproduces the original
/// terms exactly.
pub proof fn lemma_terms_round_trip(ts: Seq<Term>, us: Seq<Term>)
    requires
        forall|i: int| 0 <= i < ts.len() ==> (#[trigger] ts[i]).well_formed(),
        us.len() == comma_tokens(joined_terms(ts, seq![','])).len(),
        forall|i: int|
            0 <= i < us.len() ==> (#[trigger] us[i]).well_formed() && us[i].value() == token_val(
                comma_tokens(joined_terms(ts, seq![',']))[i],
            ),
    ensures
        us.len() == ts.len(),
        forall|i: int|
            0 <= i < ts.len() ==> (#[trigger] us[i]).negative == ts[i].negative && us[i].digits@
                == ts[i].digits@,
{
    lemma_encode_tokens(ts);
    assert forall|i: int|
        0 <= i < ts.len() implies (#[trigger] us[i]).negative == ts[i].negative && us[i].digits@
        == ts[i].digits@ by {
        lemma_term_value_injective(us[i], ts[i]);
    }
}

} // verus!
