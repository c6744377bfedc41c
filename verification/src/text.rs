//! Small verified utilities on strings and character sequences: exact
//! string equality, decimal digits, splitting on commas, and decimal
//! rendering of unsigned integers.

use vstd::prelude::*;

verus! {

/// Exact equality of two string slices, character by character.
pub fn str_eq(a: &str, b: &str) -> (r: bool)
    ensures
        r == (a@ == b@),
{
    let alen = a.unicode_len();
    let blen = b.unicode_len();
    if alen != blen {
        return false;
    }
    let mut i: usize = 0;
    while i < alen
        invariant
            alen == a@.len(),
            blen == b@.len(),
            alen == blen,
            i <= alen,
            forall|j: int| 0 <= j < i ==> a@[j] == b@[j],
        decreases alen - i,
    {
        if a.get_char(i) != b.get_char(i) {
            return false;
        }
        i += 1;
    }
    proof {
        assert(a@ =~= b@);
    }
    true
}

/// `c` is a decimal digit.
pub open spec fn is_digit(c: char) -> bool {
    c == '0' || c == '1' || c == '2' || c == '3' || c == '4' || c == '5' || c == '6' || c == '7'
        || c == '8' || c == '9'
}

/// The numeric value of a digit character (meaningful only under [`is_digit`]).
pub open spec fn digit_val(c: char) -> int {
    if c == '0' {
        0
    } else if c == '1' {
        1
    } else if c == '2' {
        2
    } else if c == '3' {
        3
    } else if c == '4' {
        4
    } else if c == '5' {
        5
    } else if c == '6' {
        6
    } else if c == '7' {
        7
    } else if c == '8' {
        8
    } else {
        9
    }
}

/// The character of a digit value (meaningful only for `d <= 9`).
pub open spec fn digit_char(d: u8) -> char {
    if d == 0 {
        '0'
    } else if d == 1 {
        '1'
    } else if d == 2 {
        '2'
    } else if d == 3 {
        '3'
    } else if d == 4 {
        '4'
    } else if d == 5 {
        '5'
    } else if d == 6 {
        '6'
    } else if d == 7 {
        '7'
    } else if d == 8 {
        '8'
    } else {
        '9'
    }
}

/// The two digit maps invert each other.
pub proof fn lemma_digit_char_val(d: u8)
    requires
        d <= 9,
    ensures
        is_digit(digit_char(d)),
        digit_val(digit_char(d)) == d,
        digit_char(d) != ',',
        digit_char(d) != '-',
        digit_char(d) != '+',
{
}

/// The digit value of `c`, or `None` where `c` is no digit.
pub fn char_digit(c: char) -> (r: Option<u8>)
    ensures
        r is Some <==> is_digit(c),
        r is Some ==> r->0 <= 9 && r->0 as int == digit_val(c) && digit_char(r->0) == c,
{
    match c {
        '0' => Some(0),
        '1' => Some(1),
        '2' => Some(2),
        '3' => Some(3),
        '4' => Some(4),
        '5' => Some(5),
        '6' => Some(6),
        '7' => Some(7),
        '8' => Some(8),
        '9' => Some(9),
        _ => None,
    }
}

/// Append the character of digit `d` to `out`.
pub fn push_digit(out: &mut String, d: u8)
    requires
        d <= 9,
    ensures
        final(out)@ == old(out)@ + seq![digit_char(d)],
{
    match d {
        0 => {
            proof {
                reveal_strlit("0");
                assert("0"@ =~= seq![digit_char(0)]);
            }
            out.append("0");
        },
        1 => {
            proof {
                reveal_strlit("1");
                assert("1"@ =~= seq![digit_char(1)]);
            }
            out.append("1");
        },
        2 => {
            proof {
                reveal_strlit("2");
                assert("2"@ =~= seq![digit_char(2)]);
            }
            out.append("2");
        },
        3 => {
            proof {
                reveal_strlit("3");
                assert("3"@ =~= seq![digit_char(3)]);
            }
            out.append("3");
        },
        4 => {
            proof {
                reveal_strlit("4");
                assert("4"@ =~= seq![digit_char(4)]);
            }
            out.append("4");
        },
        5 => {
            proof {
                reveal_strlit("5");
                assert("5"@ =~= seq![digit_char(5)]);
            }
            out.append("5");
        },
        6 => {
            proof {
                reveal_strlit("6");
                assert("6"@ =~= seq![digit_char(6)]);
            }
            out.append("6");
        },
        7 => {
            proof {
                reveal_strlit("7");
                assert("7"@ =~= seq![digit_char(7)]);
            }
            out.append("7");
        },
        8 => {
            proof {
                reveal_strlit("8");
                assert("8"@ =~= seq![digit_char(8)]);
            }
            out.append("8");
        },
        _ => {
            proof {
                reveal_strlit("9");
                assert("9"@ =~= seq![digit_char(9)]);
            }
            out.append("9");
        },
    }
}

/// The segments of `s` between commas, in order. A string without a comma
/// is a single segment; every comma separates two (possibly empty) segments.
pub open spec fn split_commas(s: Seq<char>) -> Seq<Seq<char>>
    decreases s.len(),
{
    if s.len() == 0 {
        seq![Seq::<char>::empty()]
    } else if s[0] == ',' {
        seq![Seq::<char>::empty()] + split_commas(s.drop_first())
    } else {
        let rest = split_commas(s.drop_first());
        seq![seq![s[0]] + rest[0]] + rest.drop_first()
    }
}

/// The non-empty sequences among `segs`, in order.
pub open spec fn nonempty_segs(segs: Seq<Seq<char>>) -> Seq<Seq<char>>
    decreases segs.len(),
{
    if segs.len() == 0 {
        Seq::<Seq<char>>::empty()
    } else if segs[0].len() > 0 {
        seq![segs[0]] + nonempty_segs(segs.drop_first())
    } else {
        nonempty_segs(segs.drop_first())
    }
}

/// The non-empty segments of `s` between commas: empty segments (as from a
/// trailing comma) are dropped.
pub open spec fn comma_tokens(s: Seq<char>) -> Seq<Seq<char>> {
    nonempty_segs(split_commas(s))
}

/// [`nonempty_segs`] distributes over concatenation.
pub proof fn lemma_nonempty_segs_add(a: Seq<Seq<char>>, b: Seq<Seq<char>>)
    ensures
        nonempty_segs(a + b) =~~= nonempty_segs(a) + nonempty_segs(b),
    decreases a.len(),
{
    if a.len() == 0 {
        assert(a + b =~~= b);
    } else {
        assert((a + b).drop_first() =~~= a.drop_first() + b);
        lemma_nonempty_segs_add(a.drop_first(), b);
    }
}

/// [`nonempty_segs`] of a single segment.
pub proof fn lemma_nonempty_segs_single(t: Seq<char>)
    ensures
        nonempty_segs(seq![t]) =~~= if t.len() > 0 {
            seq![t]
        } else {
            Seq::<Seq<char>>::empty()
        },
{
    reveal_with_fuel(nonempty_segs, 2);
    assert(seq![t].drop_first() =~~= Seq::<Seq<char>>::empty());
}

/// The views of a sequence of strings.
pub open spec fn views_of(v: Seq<String>) -> Seq<Seq<char>> {
    v.map_values(|x: String| x@)
}

/// Decomposing [`nonempty_segs`] around one position.
pub proof fn lemma_nonempty_segs_mid(all: Seq<Seq<char>>, i: int)
    requires
        0 <= i < all.len(),
    ensures
        nonempty_segs(all) =~~= nonempty_segs(all.take(i)) + nonempty_segs(seq![all[i]])
            + nonempty_segs(all.skip(i + 1)),
{
    assert(all =~~= all.take(i) + seq![all[i]] + all.skip(i + 1));
    lemma_nonempty_segs_add(all.take(i) + seq![all[i]], all.skip(i + 1));
    lemma_nonempty_segs_add(all.take(i), seq![all[i]]);
}

pub proof fn lemma_split_commas_len(s: Seq<char>)
    ensures
        split_commas(s).len() >= 1,
    decreases s.len(),
{
    if s.len() == 0 {
    } else if s[0] == ',' {
    } else {
        lemma_split_commas_len(s.drop_first());
    }
}

/// A string without commas is a single segment.
pub proof fn lemma_split_no_comma(s: Seq<char>)
    requires
        forall|i: int| 0 <= i < s.len() ==> s[i] != ',',
    ensures
        split_commas(s) =~~= seq![s],
    decreases s.len(),
{
    if s.len() == 0 {
        assert(split_commas(s) =~~= seq![s]);
    } else {
        lemma_split_no_comma(s.drop_first());
        assert(seq![s[0]] + s.drop_first() =~= s);
        assert(split_commas(s) =~~= seq![s]);
    }
}

/// Splitting at the first comma: the part before it is the first segment.
pub proof fn lemma_split_first_comma(s: Seq<char>, i: int)
    requires
        0 <= i < s.len(),
        s[i] == ',',
        forall|j: int| 0 <= j < i ==> s[j] != ',',
    ensures
        split_commas(s) =~~= seq![s.take(i)] + split_commas(s.skip(i + 1)),
    decreases i,
{
    if i == 0 {
        assert(s.take(0) =~= Seq::<char>::empty());
        assert(s.skip(1) =~= s.drop_first());
    } else {
        let t = s.drop_first();
        lemma_split_first_comma(t, i - 1);
        lemma_split_commas_len(t.skip(i));
        assert(seq![s[0]] + t.take(i - 1) =~= s.take(i));
        assert(t.skip(i) =~= s.skip(i + 1));
    }
}


/// Split a string on commas. The result has one entry per segment of
/// [`split_commas`], empty segments included.
pub fn split_str_commas(s: &str) -> (r: Vec<String>)
    ensures
        views_of(r@) == split_commas(s@),
        r@.len() == split_commas(s@).len(),
        forall|i: int| 0 <= i < r@.len() ==> r@[i]@ == split_commas(s@)[i],
{
    let n = s.unicode_len();
    let mut r: Vec<String> = Vec::new();
    let mut start: usize = 0;
    let mut i: usize = 0;
    proof {
        assert(s@.skip(0) =~= s@);
        assert(views_of(r@) =~~= Seq::<Seq<char>>::empty());
    }
    while i < n
        invariant
            n == s@.len(),
            start <= i <= n,
            forall|j: int| start <= j < i ==> s@[j] != ',',
            split_commas(s@) =~~= views_of(r@) + split_commas(s@.skip(start as int)),
        decreases n - i,
    {
        if s.get_char(i) == ',' {
            let seg = s.substring_char(start, i).to_owned();
            proof {
                let tail = s@.skip(start as int);
                lemma_split_first_comma(tail, i - start);
                assert(tail.take(i - start) =~= s@.subrange(start as int, i as int));
                assert(tail.skip(i - start + 1) =~= s@.skip(i + 1 as int));
                assert(views_of(r@.push(seg)) =~~= views_of(r@) + seq![
                    s@.subrange(start as int, i as int),
                ]);
            }
            r.push(seg);
            start = i + 1;
        }
        i += 1;
    }
    let last = s.substring_char(start, n).to_owned();
    proof {
        lemma_split_no_comma(s@.skip(start as int));
        assert(views_of(r@.push(last)) =~~= views_of(r@) + seq![
            s@.subrange(start as int, n as int),
        ]);
        assert(s@.skip(start as int) =~= s@.subrange(start as int, n as int));
    }
    r.push(last);
    r
}

/// The decimal digits of `n`, most significant first, without leading zeros.
pub open spec fn dec_chars(n: int) -> Seq<char>
    decreases n,
{
    if n < 10 {
        seq![digit_char(n as u8)]
    } else {
        dec_chars(n / 10) + seq![digit_char((n % 10) as u8)]
    }
}

/// Render `n` in decimal.
pub fn u64_to_string(n: u64) -> (r: String)
    ensures
        r@ == dec_chars(n as int),
{
    let mut acc: Vec<u8> = Vec::new();
    let mut cur = n;
    acc.push((cur % 10) as u8);
    cur = cur / 10;
    while cur > 0
        invariant
            acc@.len() >= 1,
            forall|j: int| 0 <= j < acc@.len() ==> acc@[j] <= 9,
            dec_chars(n as int) =~= (if cur > 0 {
                dec_chars(cur as int)
            } else {
                Seq::<char>::empty()
            }) + acc@.reverse().map_values(|d: u8| digit_char(d)),
        decreases cur,
    {
        proof {
            let f = |d: u8| digit_char(d);
            assert(acc@.push((cur % 10) as u8).reverse().map_values(f) =~= seq![
                digit_char((cur % 10) as u8),
            ] + acc@.reverse().map_values(f));
            if cur >= 10 {
                assert(dec_chars(cur as int) == dec_chars(cur as int / 10) + seq![
                    digit_char((cur as int % 10) as u8),
                ]);
            }
        }
        acc.push((cur % 10) as u8);
        cur = cur / 10;
    }
    let mut out = String::new();
    let mut i = acc.len();
    while i > 0
        invariant
            i <= acc@.len(),
            forall|j: int| 0 <= j < acc@.len() ==> acc@[j] <= 9,
            dec_chars(n as int) =~= acc@.reverse().map_values(|d: u8| digit_char(d)),
            out@ =~= acc@.reverse().map_values(|d: u8| digit_char(d)).take(acc@.len() - i),
        decreases i,
    {
        i = i - 1;
        push_digit(&mut out, acc[i]);
        proof {
            let f = |d: u8| digit_char(d);
            let rev = acc@.reverse().map_values(f);
            assert(rev[acc@.len() - i - 1] == digit_char(acc@[i as int]));
            assert(rev.take(acc@.len() - i) =~= rev.take(acc@.len() - i - 1).push(digit_char(
                acc@[i as int],
            )));
        }
    }
    proof {
        let f = |d: u8| digit_char(d);
        assert(acc@.reverse().map_values(f).take(acc@.len() as int) =~= acc@.reverse().map_values(
            f,
        ));
    }
    out
}

/// `cs` left-padded with zeros to at least six characters.
pub open spec fn zero_pad6(cs: Seq<char>) -> Seq<char> {
    if cs.len() >= 6 {
        cs
    } else {
        Seq::new((6 - cs.len()) as nat, |i: int| '0') + cs
    }
}

/// The canonical display label of an identifier: `A` followed by the
/// identifier zero-padded to six digits.
pub open spec fn a_label_chars(id: int) -> Seq<char> {
    seq!['A'] + zero_pad6(dec_chars(id))
}

/// Render the canonical display label of identifier `id`.
pub fn a_label(id: u64) -> (r: String)
    ensures
        r@ == a_label_chars(id as int),
{
    let digits = u64_to_string(id);
    let mut out = String::new();
    proof {
        reveal_strlit("A");
        assert("A"@ =~= seq!['A']);
    }
    out.append("A");
    let mut pad: usize = 6;
    let dlen = digits.as_str().unicode_len();
    if dlen < 6 {
        pad = 6 - dlen;
        let mut j: usize = 0;
        while j < pad
            invariant
                pad == 6 - dlen,
                dlen == dec_chars(id as int).len(),
                dlen < 6,
                j <= pad,
                out@ =~= seq!['A'] + Seq::new(j as nat, |i: int| '0'),
            decreases pad - j,
        {
            push_digit(&mut out, 0);
            proof {
                assert(seq!['A'] + Seq::new((j + 1) as nat, |i: int| '0') =~= (seq!['A']
                    + Seq::new(j as nat, |i: int| '0')) + seq![digit_char(0)]);
            }
            j += 1;
        }
        out.append(digits.as_str());
        proof {
            assert(out@ =~= a_label_chars(id as int));
        }
    } else {
        out.append(digits.as_str());
        proof {
            assert(out@ =~= a_label_chars(id as int));
        }
    }
    out
}

} // verus!
