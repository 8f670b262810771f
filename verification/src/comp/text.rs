//! Text at the level of characters: fields between separators and small
//! signed decimal numbers, each with the function that reads it and the
//! function that writes it.

use vstd::prelude::*;
use vstd::string::*;

verus! {

/// The fields of `s` between the occurrences of `sep`.
///
/// Reading left to right, a separator closes the current field and opens an
/// empty one; any other character is added to the current field. A text
/// without separators is a single field, and the empty text is one empty
/// field.
pub open spec fn split(s: Seq<char>, sep: char) -> Seq<Seq<char>>
    decreases s.len(),
{
    if s.len() == 0 {
        seq![Seq::empty()]
    } else {
        let before = split(s.drop_last(), sep);
        if s.last() == sep {
            before.push(Seq::empty())
        } else {
            before.drop_last().push(before.last().push(s.last()))
        }
    }
}

/// The fields joined again, with one `sep` between neighbours.
pub open spec fn join(fields: Seq<Seq<char>>, sep: char) -> Seq<char>
    decreases fields.len(),
{
    if fields.len() == 0 {
        Seq::empty()
    } else if fields.len() == 1 {
        fields[0]
    } else {
        join(fields.drop_last(), sep).push(sep) + fields.last()
    }
}

/// Whether `sep` occurs nowhere in `s`.
pub open spec fn free_of(s: Seq<char>, sep: char) -> bool {
    forall|i: int| 0 <= i < s.len() ==> s[i] != sep
}

/// The character sequences that a vector of character vectors stands for.
pub open spec fn views(v: Seq<Vec<char>>) -> Seq<Seq<char>> {
    Seq::new(v.len(), |i: int| v[i]@)
}

/// Whether `c` is one of the ten decimal digits.
pub open spec fn is_digit(c: char) -> bool {
    '0' <= c <= '9'
}

/// The number that the digit `c` stands for.
pub open spec fn digit_value(c: char) -> int {
    c as int - 48
}

/// The digit that stands for `d`, for `d` from 0 to 9.
pub open spec fn digit_char(d: int) -> char {
    ((d + 48) as u8) as char
}

/// Whether `s` consists of decimal digits only.
pub open spec fn is_digits(s: Seq<char>) -> bool {
    forall|i: int| 0 <= i < s.len() ==> is_digit(#[trigger] s[i])
}

/// The number that a sequence of decimal digits denotes, leading zeros
/// allowed. The empty sequence denotes 0.
pub open spec fn digits_value(s: Seq<char>) -> int
    decreases s.len(),
{
    if s.len() == 0 {
        0
    } else {
        10 * digits_value(s.drop_last()) + digit_value(s.last())
    }
}

/// Whether `s` begins with a sign.
pub open spec fn has_sign(s: Seq<char>) -> bool {
    s.len() > 0 && (s[0] == '-' || s[0] == '+')
}

/// The digits of a signed decimal numeral: what follows the sign, or the
/// whole text where there is none.
pub open spec fn numeral_digits(s: Seq<char>) -> Seq<char> {
    if has_sign(s) {
        s.drop_first()
    } else {
        s
    }
}

/// The number that the signed decimal numeral `s` denotes.
pub open spec fn numeral_value(s: Seq<char>) -> int {
    if s.len() > 0 && s[0] == '-' {
        -digits_value(numeral_digits(s))
    } else {
        digits_value(numeral_digits(s))
    }
}

/// Reads a signed decimal numeral of 8 bits: an optional `+` or `-`, then
/// one digit or more, denoting a number from -128 to 127. Anything else is
/// no numeral.
pub open spec fn parse_i8(s: Seq<char>) -> Option<i8> {
    if numeral_digits(s).len() > 0 && is_digits(numeral_digits(s)) && -128 <= numeral_value(s)
        <= 127 {
        Some(numeral_value(s) as i8)
    } else {
        None
    }
}

/// The decimal digits of `n`, without leading zeros.
pub open spec fn render_nat(n: nat) -> Seq<char>
    decreases n,
{
    if n < 10 {
        seq![digit_char(n as int)]
    } else {
        render_nat(n / 10).push(digit_char((n % 10) as int))
    }
}

/// The distance of `v` from 0.
pub open spec fn magnitude_of(v: int) -> nat {
    if v < 0 {
        (-v) as nat
    } else {
        v as nat
    }
}

/// The decimal numeral of `v`: a `-` for a negative number, then the digits
/// of its magnitude.
pub open spec fn render_int(v: int) -> Seq<char> {
    if v < 0 {
        seq!['-'] + render_nat(magnitude_of(v))
    } else {
        render_nat(magnitude_of(v))
    }
}

/// The separators divide `s + [sep] + t` into the fields of `s` and then
/// those of a text `t` that holds no separator, which is one field.
pub proof fn lemma_split_append(s: Seq<char>, t: Seq<char>, sep: char)
    requires
        free_of(t, sep),
    ensures
        split(s.push(sep) + t, sep) == split(s, sep).push(t),
    decreases t.len(),
{
    let whole = s.push(sep) + t;
    if t.len() == 0 {
        assert(whole.drop_last() =~= s);
        assert(t =~= Seq::empty());
    } else {
        let shorter = t.drop_last();
        lemma_split_append(s, shorter, sep);
        assert(whole.drop_last() =~= s.push(sep) + shorter);
        assert(shorter.push(t.last()) =~= t);
    }
}

/// A text that holds no separator is a single field.
pub proof fn lemma_split_single(t: Seq<char>, sep: char)
    requires
        free_of(t, sep),
    ensures
        split(t, sep) == seq![t],
    decreases t.len(),
{
    if t.len() == 0 {
        assert(t =~= Seq::empty());
    } else {
        let shorter = t.drop_last();
        lemma_split_single(shorter, sep);
        assert(seq![shorter].drop_last().push(shorter.push(t.last())) =~= seq![t]) by {
            assert(shorter.push(t.last()) =~= t);
        }
    }
}

/// Fields that hold no separator are what splitting their join gives: split
/// undoes join.
pub proof fn lemma_split_joined(fields: Seq<Seq<char>>, sep: char)
    requires
        fields.len() >= 1,
        forall|i: int| 0 <= i < fields.len() ==> free_of(#[trigger] fields[i], sep),
    ensures
        split(join(fields, sep), sep) == fields,
    decreases fields.len(),
{
    if fields.len() == 1 {
        lemma_split_single(fields[0], sep);
    } else {
        let front = fields.drop_last();
        lemma_split_joined(front, sep);
        lemma_split_append(join(front, sep), fields.last(), sep);
    }
}

/// Splitting always gives at least one field, no field holds the separator,
/// and joining the fields gives the text back: join undoes split.
pub proof fn lemma_split_join(s: Seq<char>, sep: char)
    ensures
        split(s, sep).len() >= 1,
        forall|i: int| 0 <= i < split(s, sep).len() ==> free_of(#[trigger] split(s, sep)[i], sep),
        join(split(s, sep), sep) == s,
    decreases s.len(),
{
    if s.len() > 0 {
        let shorter = s.drop_last();
        lemma_split_join(shorter, sep);
        let before = split(shorter, sep);
        let after = split(s, sep);
        if s.last() == sep {
            assert(after.drop_last() =~= before);
        } else if before.len() > 1 {
            let head = join(before.drop_last(), sep).push(sep);
            let grown = before.last().push(s.last());
            assert(after.drop_last() =~= before.drop_last());
            assert(head + grown =~= (head + before.last()).push(s.last()));
        }
    }
}

/// A sequence of digits denotes no less than any of its prefixes.
pub proof fn lemma_digits_value_prefix(s: Seq<char>, k: int)
    requires
        is_digits(s),
        0 <= k <= s.len(),
    ensures
        0 <= digits_value(s.take(k)) <= digits_value(s),
    decreases s.len(),
{
    if k == s.len() {
        assert(s.take(k) =~= s);
        if s.len() > 0 {
            assert(is_digits(s.drop_last()));
            lemma_digits_value_prefix(s.drop_last(), k - 1);
            assert(s.drop_last().take(k - 1) =~= s.drop_last());
        }
    } else {
        assert(is_digits(s.drop_last()));
        lemma_digits_value_prefix(s.drop_last(), k);
        assert(s.drop_last().take(k) =~= s.take(k));
    }
}

/// The digits written for `n` are digits, at least one of them, and denote
/// `n`.
pub proof fn lemma_render_nat(n: nat)
    ensures
        render_nat(n).len() > 0,
        is_digits(render_nat(n)),
        digits_value(render_nat(n)) == n,
    decreases n,
{
    if n < 10 {
        let s = render_nat(n);
        assert(digits_value(s.drop_last()) == 0);
    } else {
        lemma_render_nat(n / 10);
        let s = render_nat(n);
        assert(s.drop_last() =~= render_nat(n / 10));
    }
}

/// Reading the numeral written for a number of 8 bits gives the number
/// back.
pub proof fn lemma_parse_render(v: i8)
    ensures
        parse_i8(render_int(v as int)) == Some(v),
{
    lemma_render_nat(magnitude_of(v as int));
    if v < 0 {
        assert(render_int(v as int).drop_first() =~= render_nat(magnitude_of(v as int)));
    }
}

/// No numeral written for a number holds a blank or a line break.
pub proof fn lemma_render_plain(v: int)
    ensures
        free_of(render_int(v), ' '),
        free_of(render_int(v), '\n'),
{
    lemma_render_nat(magnitude_of(v));

}

/// The characters of a text, in order.
pub fn chars_of(text: &str) -> (r: Vec<char>)
    ensures
        r@ == text@,
{
    let mut out: Vec<char> = Vec::new();
    for c in it: text.chars()
        invariant
            out@ == it.seq().take(it.index() as int),
    {
        out.push(c);
    }
    out
}

/// Divides `s` into its fields between the occurrences of `sep`.
pub fn split_chars(s: &Vec<char>, sep: char) -> (r: Vec<Vec<char>>)
    ensures
        views(r@) == split(s@, sep),
{
    let mut fields: Vec<Vec<char>> = Vec::new();
    let mut cur: Vec<char> = Vec::new();
    let mut i: usize = 0;
    assert(views(fields@).push(cur@) =~= seq![Seq::empty()]);
    while i < s.len()
        invariant
            0 <= i <= s.len(),
            views(fields@).push(cur@) == split(s@.take(i as int), sep),
        decreases s.len() - i,
    {
        let c = s[i];
        proof {
            let shorter = s@.take(i as int);
            let longer = s@.take(i + 1);
            assert(longer.drop_last() =~= shorter);
            assert(longer.last() == c);
            let before = views(fields@).push(cur@);
            assert(before.drop_last() =~= views(fields@));
            assert(before.last() == cur@);
        }
        let ghost earlier = views(fields@);
        let ghost open = cur@;
        if c == sep {
            fields.push(cur);
            cur = Vec::new();
            assert(views(fields@) =~= earlier.push(open));
        } else {
            cur.push(c);
            assert(views(fields@) =~= earlier);
        }
        i += 1;
    }
    assert(s@.take(s.len() as int) =~= s@);
    let ghost earlier = views(fields@);
    let ghost last = cur@;
    fields.push(cur);
    assert(views(fields@) =~= earlier.push(last));
    fields
}

/// The one-character text of a decimal digit.
pub fn digit_text(d: u8) -> (r: &'static str)
    requires
        d < 10,
    ensures
        r@ == seq![digit_char(d as int)],
{
    proof {
        reveal_strlit("0");
        reveal_strlit("1");
        reveal_strlit("2");
        reveal_strlit("3");
        reveal_strlit("4");
        reveal_strlit("5");
        reveal_strlit("6");
        reveal_strlit("7");
        reveal_strlit("8");
        reveal_strlit("9");
    }
    let r = match d {
        0 => "0",
        1 => "1",
        2 => "2",
        3 => "3",
        4 => "4",
        5 => "5",
        6 => "6",
        7 => "7",
        8 => "8",
        _ => "9",
    };
    assert(r@ =~= seq![digit_char(d as int)]);
    r
}

/// Writes `v` as a decimal numeral.
pub fn render_i8(v: i8) -> (r: String)
    ensures
        r@ == render_int(v as int),
{
    let mut out = String::new();
    let m: u8 = if v < 0 {
        proof {
            reveal_strlit("-");
        }
        out.append("-");
        (-(v as i16)) as u8
    } else {
        v as u8
    };
    let ghost sign = out@;
    if m >= 100 {
        out.append(digit_text(m / 100));
    }
    if m >= 10 {
        out.append(digit_text((m / 10) % 10));
    }
    out.append(digit_text(m % 10));
    proof {
        reveal_with_fuel(render_nat, 3);
        assert(out@ =~= sign + render_nat(m as nat));
        assert(sign + render_nat(m as nat) =~= render_int(v as int));
    }
    out
}

/// Reads a signed decimal numeral of 8 bits from the characters of `s`
/// that start at `from`.
pub fn parse_chars(s: &Vec<char>, from: usize) -> (r: Option<i8>)
    requires
        from <= s.len(),
    ensures
        r == parse_i8(s@.subrange(from as int, s.len() as int)),
{
    let ghost numeral = s@.subrange(from as int, s.len() as int);
    let ghost digits = numeral_digits(numeral);
    let n = s.len();
    let mut start = from;
    let mut negative = false;
    if start < n && (s[start] == '-' || s[start] == '+') {
        negative = s[start] == '-';
        start += 1;
    }
    assert(digits =~= s@.subrange(start as int, n as int));
    assert(has_sign(numeral) <==> start > from);
    if start >= n {
        return None;
    }
    let mut i = start;
    let mut acc: i32 = 0;
    while i < n
        invariant
            start <= i <= n,
            n == s.len(),
            from <= start,
            numeral == s@.subrange(from as int, n as int),
            digits == numeral_digits(numeral),
            digits == s@.subrange(start as int, n as int),
            negative == (numeral.len() > 0 && numeral[0] == '-'),
            is_digits(digits.take(i - start)),
            acc == digits_value(digits.take(i - start)),
            0 <= acc <= 128,
        decreases n - i,
    {
        let c = s[i];
        let ghost k = i - start;
        assert(digits.take(k + 1).drop_last() =~= digits.take(k));
        if c >= '0' && c <= '9' {
            let d = (c as u32 - '0' as u32) as i32;
            acc = acc * 10 + d;
            assert(is_digits(digits.take(k + 1))) by {
                assert forall|j: int| 0 <= j < k implies is_digit(
                    #[trigger] digits.take(k + 1)[j],
                ) by {
                    assert(digits.take(k + 1)[j] == digits.take(k)[j]);
                }
            }
            if acc > 128 {
                proof {
                    if is_digits(digits) {
                        lemma_digits_value_prefix(digits, k + 1);
                    }
                }
                return None;
            }
        } else {
            assert(!is_digit(digits[k]));
            return None;
        }
        i += 1;
    }
    assert(digits.take(n - start) =~= digits);
    if negative {
        Some((-acc) as i8)
    } else if acc > 127 {
        None
    } else {
        Some(acc as i8)
    }
}

} // verus!
