//! Inference of a value from its text: a truth value, a number, a list in
//! brackets, or else plain text.

use crate::strings::from_chars;
use crate::strings::to_chars;
use crate::text::pieces;
use crate::text::is_word;
use crate::text::slices_view;
use crate::text::split;
use crate::text::strip_last;
use crate::text::strip_prefix;
use crate::text::trim;
use crate::text::trimmed;
use crate::text::without_last;
use crate::text::without_prefix;
use crate::parser::syntax::delimiters::ARRAY_END;
use crate::parser::syntax::delimiters::ARRAY_START;
use crate::parser::syntax::delimiters::ITEM;
use crate::parser::types::views;
use crate::parser::types::DialogueValue;
use crate::parser::types::ValueView;
use vstd::prelude::*;
use vstd::slice::slice_subrange;

verus! {

/// Whether `c` is one of the ten decimal digits.
pub open spec fn is_digit(c: char) -> bool {
    '0' <= c <= '9'
}

/// Whether `c` is a sign.
pub open spec fn is_sign(c: char) -> bool {
    c == '+' || c == '-'
}

/// The index at which the run of digits that starts at `from` ends.
pub open spec fn digits_end(s: Seq<char>, from: int) -> int
    decreases s.len() - from,
{
    if 0 <= from < s.len() && is_digit(s[from]) {
        digits_end(s, from + 1)
    } else {
        from
    }
}

/// `s` without the sign that it may begin with.
pub open spec fn unsigned(s: Seq<char>) -> Seq<char> {
    if s.len() > 0 && is_sign(s[0]) {
        s.skip(1)
    } else {
        s
    }
}

/// Whether `s` spells `lower` in letters of either case, `upper` being
/// `lower` in capitals.
pub open spec fn spells(s: Seq<char>, lower: Seq<char>, upper: Seq<char>) -> bool {
    &&& s.len() == lower.len()
    &&& forall|i: int| 0 <= i < s.len() ==> s[i] == lower[i] || s[i] == upper[i]
}

/// Whether `s` names infinity or not-a-number.
pub open spec fn is_special(s: Seq<char>) -> bool {
    ||| spells(s, seq!['i', 'n', 'f'], seq!['I', 'N', 'F'])
    ||| spells(s, seq!['n', 'a', 'n'], seq!['N', 'A', 'N'])
    ||| spells(
        s,
        seq!['i', 'n', 'f', 'i', 'n', 'i', 't', 'y'],
        seq!['I', 'N', 'F', 'I', 'N', 'I', 'T', 'Y'],
    )
}

/// Whether `e` is an exponent: `e` or `E`, an optional sign, and at least
/// one digit.
pub open spec fn is_exponent(e: Seq<char>) -> bool {
    &&& e.len() > 0
    &&& (e[0] == 'e' || e[0] == 'E')
    &&& unsigned(e.skip(1)).len() > 0
    &&& digits_end(unsigned(e.skip(1)), 0) == unsigned(e.skip(1)).len()
}

/// Whether `s` is an unsigned decimal numeral: digits with at most one
/// point among them, at least one digit in all, and an optional exponent.
pub open spec fn is_decimal(s: Seq<char>) -> bool {
    let whole_end = digits_end(s, 0);
    let pointed = whole_end < s.len() && s[whole_end] == '.';
    let fraction_end = if pointed {
        digits_end(s, whole_end + 1)
    } else {
        whole_end
    };
    let digits = if pointed {
        fraction_end - 1
    } else {
        fraction_end
    };
    &&& digits > 0
    &&& (fraction_end == s.len() || is_exponent(s.skip(fraction_end)))
}

/// Whether `s` is written as a number: an optional sign, then a decimal
/// numeral or the name of infinity or of not-a-number. White space is no
/// part of a number.
pub open spec fn is_number(s: Seq<char>) -> bool {
    is_special(unsigned(s)) || is_decimal(unsigned(s))
}

/// Of `parts`, each trimmed, those that are not empty, in order.
pub open spec fn kept_items(parts: Seq<Seq<char>>) -> Seq<Seq<char>>
    decreases parts.len(),
{
    if parts.len() == 0 {
        Seq::empty()
    } else if trim(parts.last()).len() > 0 {
        kept_items(parts.drop_last()).push(trim(parts.last()))
    } else {
        kept_items(parts.drop_last())
    }
}

/// What stands between the brackets of `s`, where `s` begins with `[` and
/// what follows ends with `]`.
pub open spec fn bracketed(s: Seq<char>) -> Option<Seq<char>> {
    match strip_prefix(s, ARRAY_START@) {
        Some(rest) => strip_last(rest, ARRAY_END),
        None => None,
    }
}

/// The value that `s` is read as. The order of the trials is fixed: a truth
/// value, then a number, then a list in brackets, and text where all fail.
/// The items of a list are the trimmed, non-empty pieces between commas and
/// are never read as values themselves.
pub open spec fn value_of(s: Seq<char>) -> ValueView {
    if s == "true"@ {
        ValueView::Boolean(true)
    } else if s == "false"@ {
        ValueView::Boolean(false)
    } else if is_number(s) {
        ValueView::Number(s)
    } else if bracketed(s) is Some {
        ValueView::Array(kept_items(split(bracketed(s)->0, ITEM)))
    } else {
        ValueView::Text(s)
    }
}

/// The run of digits that starts at `from` ends within `s`, at a character
/// that is no digit, and holds digits only.
pub proof fn lemma_digits_end(s: Seq<char>, from: int)
    requires
        0 <= from <= s.len(),
    ensures
        from <= digits_end(s, from) <= s.len(),
        digits_end(s, from) < s.len() ==> !is_digit(s[digits_end(s, from)]),
        forall|i: int| from <= i < digits_end(s, from) ==> is_digit(s[i]),
    decreases s.len() - from,
{
    if from < s.len() && is_digit(s[from]) {
        lemma_digits_end(s, from + 1);
    }
}

/// Whether `c` is a decimal digit.
fn is_digit_char(c: char) -> (r: bool)
    ensures
        r == is_digit(c),
{
    let n: u32 = c as u32;
    0x30 <= n && n <= 0x39
}

/// The index at which the run of digits that starts at `from` ends.
fn scan_digits(s: &[char], from: usize) -> (end: usize)
    requires
        from <= s@.len(),
    ensures
        end == digits_end(s@, from as int),
        from <= end <= s@.len(),
{
    let n = s.len();
    let mut i: usize = from;
    while i < n && is_digit_char(s[i])
        invariant
            from <= i <= n,
            n == s@.len(),
            digits_end(s@, from as int) == digits_end(s@, i as int),
        decreases n - i,
    {
        i += 1;
    }
    i
}

/// `s` without the sign that it may begin with.
fn without_sign(s: &[char]) -> (r: &[char])
    ensures
        r@ == unsigned(s@),
{
    if s.len() > 0 && (s[0] == '+' || s[0] == '-') {
        slice_subrange(s, 1, s.len())
    } else {
        s
    }
}

/// Whether `s` spells the word whose letters are `lower`, in either case.
fn spells_word(s: &[char], lower: &[char], upper: &[char]) -> (r: bool)
    requires
        lower@.len() == upper@.len(),
    ensures
        r == spells(s@, lower@, upper@),
{
    if s.len() != lower.len() {
        return false;
    }
    let mut i: usize = 0;
    while i < s.len()
        invariant
            i <= s@.len(),
            s@.len() == lower@.len(),
            lower@.len() == upper@.len(),
            forall|j: int| 0 <= j < i ==> s@[j] == lower@[j] || s@[j] == upper@[j],
        decreases s@.len() - i,
    {
        if s[i] != lower[i] && s[i] != upper[i] {
            return false;
        }
        i += 1;
    }
    true
}

/// Whether `s` names infinity or not-a-number.
fn is_special_name(s: &[char]) -> (r: bool)
    ensures
        r == is_special(s@),
{
    let inf_lower = ['i', 'n', 'f'];
    let inf_upper = ['I', 'N', 'F'];
    let nan_lower = ['n', 'a', 'n'];
    let nan_upper = ['N', 'A', 'N'];
    let infinity_lower = ['i', 'n', 'f', 'i', 'n', 'i', 't', 'y'];
    let infinity_upper = ['I', 'N', 'F', 'I', 'N', 'I', 'T', 'Y'];
    proof {
        assert(inf_lower@ =~= seq!['i', 'n', 'f']);
        assert(inf_upper@ =~= seq!['I', 'N', 'F']);
        assert(nan_lower@ =~= seq!['n', 'a', 'n']);
        assert(nan_upper@ =~= seq!['N', 'A', 'N']);
        assert(infinity_lower@ =~= seq!['i', 'n', 'f', 'i', 'n', 'i', 't', 'y']);
        assert(infinity_upper@ =~= seq!['I', 'N', 'F', 'I', 'N', 'I', 'T', 'Y']);
    }
    spells_word(s, inf_lower.as_slice(), inf_upper.as_slice()) || spells_word(
        s,
        nan_lower.as_slice(),
        nan_upper.as_slice(),
    ) || spells_word(s, infinity_lower.as_slice(), infinity_upper.as_slice())
}

/// Whether `e` is an exponent.
fn is_exponent_part(e: &[char]) -> (r: bool)
    ensures
        r == is_exponent(e@),
{
    if e.len() == 0 || (e[0] != 'e' && e[0] != 'E') {
        return false;
    }
    let digits = without_sign(slice_subrange(e, 1, e.len()));
    digits.len() > 0 && scan_digits(digits, 0) == digits.len()
}

/// Whether `s` is an unsigned decimal numeral.
fn is_decimal_numeral(s: &[char]) -> (r: bool)
    ensures
        r == is_decimal(s@),
{
    let n = s.len();
    let whole_end = scan_digits(s, 0);
    let pointed = whole_end < n && s[whole_end] == '.';
    let fraction_end = if pointed {
        scan_digits(s, whole_end + 1)
    } else {
        whole_end
    };
    let digits = if pointed {
        fraction_end - 1
    } else {
        fraction_end
    };
    if digits == 0 {
        return false;
    }
    fraction_end == n || is_exponent_part(slice_subrange(s, fraction_end, n))
}

/// Whether `s` is written as a number.
pub fn is_numeral(s: &[char]) -> (r: bool)
    ensures
        r == is_number(s@),
{
    let body = without_sign(s);
    is_special_name(body) || is_decimal_numeral(body)
}

/// The items of a list: of the pieces of `inner` between commas, each
/// trimmed, those that are not empty.
fn list_items(inner: &[char]) -> (out: Vec<String>)
    ensures
        views(out@) == kept_items(split(inner@, ITEM)),
{
    let parts = pieces(inner, ITEM);
    let mut out: Vec<String> = Vec::new();
    let mut k: usize = 0;
    proof {
        assert(slices_view(parts@).take(0) =~= Seq::<Seq<char>>::empty());
        assert(views(out@) =~= Seq::<Seq<char>>::empty());
    }
    while k < parts.len()
        invariant
            k <= parts@.len(),
            views(out@) == kept_items(slices_view(parts@).take(k as int)),
        decreases parts@.len() - k,
    {
        let item = trimmed(parts[k]);
        proof {
            let all = slices_view(parts@);
            assert(all.take(k + 1).drop_last() =~= all.take(k as int));
            assert(all.take(k + 1).last() == parts@[k as int]@);
        }
        if item.len() > 0 {
            let ghost before = out@;
            out.push(from_chars(item));
            proof {
                assert(views(out@) =~= views(before).push(item@));
            }
        }
        k += 1;
    }
    proof {
        assert(slices_view(parts@).take(k as int) =~= slices_view(parts@));
    }
    out
}

/// Reads `from` as a value.
pub fn infer_value(from: &[char]) -> (r: DialogueValue)
    ensures
        r@ == value_of(from@),
{
    if is_word(from, "true") {
        return DialogueValue::Boolean(true);
    }
    if is_word(from, "false") {
        return DialogueValue::Boolean(false);
    }
    if is_numeral(from) {
        return DialogueValue::Number(from_chars(from));
    }
    if let Some(rest) = without_prefix(from, ARRAY_START) {
        if let Some(inner) = without_last(rest, ARRAY_END) {
            return DialogueValue::Array(list_items(inner));
        }
    }
    DialogueValue::Text(from_chars(from))
}

/// Reads `from` as a value: a truth value, a number, a list in brackets, or
/// else text.
pub fn parse_value(from: &str) -> (r: DialogueValue)
    ensures
        r@ == value_of(from@),
{
    let chars = to_chars(from);
    infer_value(chars.as_slice())
}

} // verus!
