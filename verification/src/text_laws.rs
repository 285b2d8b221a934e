//! What holds of the operations on text.
use crate::text::{
    decimal_digits, folded, is_white_space, opt_text, same_ignoring_case, texts, trimmed,
    trimmed_back, trimmed_front,
};
use vstd::prelude::*;

verus! {

/// A list of strings and the list of their texts have the same length and agree place by place,
/// and an optional string has a text just where it is there.
pub proof fn texts_are_those_of_the_strings(strings: Seq<String>, one: Option<String>)
    ensures
        texts(strings).len() == strings.len(),
        forall|i: int| 0 <= i < strings.len() ==> #[trigger] texts(strings)[i] == strings[i]@,
        one is None ==> opt_text(one) is None,
        one is Some ==> opt_text(one) == Some(one->0@),
{
}

/// White space is what Unicode counts as such: the ASCII blanks, the two no-break spaces, the next
/// line character, the Ogham space, the spaces of the general punctuation block, the line and
/// paragraph separators, and the mathematical and ideographic spaces.
pub proof fn white_space_is_that_of_unicode(c: char)
    ensures
        is_white_space(c) == {
            ||| c == '\u{9}' || c == '\u{a}' || c == '\u{b}' || c == '\u{c}' || c == '\u{d}'
            ||| c == ' ' || c == '\u{85}' || c == '\u{a0}' || c == '\u{1680}'
            ||| '\u{2000}' <= c <= '\u{200a}'
            ||| c == '\u{2028}' || c == '\u{2029}' || c == '\u{202f}' || c == '\u{205f}'
            ||| c == '\u{3000}'
        },
{
}

proof fn lemma_front(s: Seq<char>) -> (cut: Seq<char>)
    ensures
        s == cut + trimmed_front(s),
        forall|i: int| 0 <= i < cut.len() ==> is_white_space(#[trigger] cut[i]),
        trimmed_front(s).len() > 0 ==> !is_white_space(trimmed_front(s)[0]),
    decreases s.len(),
{
    if s.len() > 0 && is_white_space(s[0]) {
        let rest = lemma_front(s.drop_first());
        let cut = seq![s[0]] + rest;
        assert(s =~= seq![s[0]] + s.drop_first());
        assert(seq![s[0]] + (rest + trimmed_front(s)) =~= cut + trimmed_front(s));
        assert(s =~= cut + trimmed_front(s));
        cut
    } else {
        assert(s =~= Seq::<char>::empty() + s);
        Seq::empty()
    }
}

proof fn lemma_back(s: Seq<char>) -> (cut: Seq<char>)
    ensures
        s == trimmed_back(s) + cut,
        forall|i: int| 0 <= i < cut.len() ==> is_white_space(#[trigger] cut[i]),
        trimmed_back(s).len() > 0 ==> !is_white_space(trimmed_back(s).last()),
        trimmed_back(s).len() > 0 ==> trimmed_back(s)[0] == s[0],
    decreases s.len(),
{
    if s.len() > 0 && is_white_space(s.last()) {
        let rest = lemma_back(s.drop_last());
        let cut = rest.push(s.last());
        assert(s =~= s.drop_last().push(s.last()));
        assert((trimmed_back(s) + rest).push(s.last()) =~= trimmed_back(s) + cut);
        assert(s =~= trimmed_back(s) + cut);
        cut
    } else {
        assert(s =~= s + Seq::<char>::empty());
        Seq::empty()
    }
}

/// Trimming takes off white space and nothing else, at both ends, and as much as there is: the
/// text is what is left between two stretches of white space, and what is left neither begins nor
/// ends with any.
pub proof fn trimming_takes_off_white_space(s: Seq<char>) -> (cut: (Seq<char>, Seq<char>))
    ensures
        s == cut.0 + trimmed(s) + cut.1,
        forall|i: int| 0 <= i < cut.0.len() ==> is_white_space(#[trigger] cut.0[i]),
        forall|i: int| 0 <= i < cut.1.len() ==> is_white_space(#[trigger] cut.1[i]),
        trimmed(s).len() > 0 ==> !is_white_space(trimmed(s)[0]) && !is_white_space(
            trimmed(s).last(),
        ),
{
    let front = lemma_front(s);
    let back = lemma_back(trimmed_front(s));
    assert(s =~= front + trimmed(s) + back);
    (front, back)
}

/// A text that neither begins nor ends with white space is left as it is by trimming, so trimming
/// twice is trimming once.
pub proof fn trimming_keeps_the_rest(s: Seq<char>)
    ensures
        s.len() > 0 && !is_white_space(s[0]) && !is_white_space(s.last()) ==> trimmed(s) == s,
        trimmed(trimmed(s)) == trimmed(s),
{
    let cut = trimming_takes_off_white_space(s);
}

/// Two characters count as the same in a comparison that ignores case if they are the same, or one
/// is an ASCII capital and the other its small letter.
pub proof fn case_is_that_of_ascii_letters(a: char, b: char)
    ensures
        (folded(a) == folded(b)) == {
            ||| a == b
            ||| 'A' <= a <= 'Z' && b as u32 == a as u32 + 32
            ||| 'A' <= b <= 'Z' && a as u32 == b as u32 + 32
        },
{
}

/// Texts are the same up to case if they have the same length and the same letters up to case, one
/// by one.
pub proof fn case_is_ignored_letter_by_letter(a: Seq<char>, b: Seq<char>)
    ensures
        same_ignoring_case(a, b) == same_ignoring_case(b, a),
        same_ignoring_case(a, a),
        same_ignoring_case(a, b) ==> a.len() == b.len(),
        a.len() == b.len() ==> (same_ignoring_case(a, b) == forall|i: int|
            0 <= i < a.len() ==> {
                ||| #[trigger] a[i] == b[i]
                ||| 'A' <= a[i] <= 'Z' && b[i] as u32 == a[i] as u32 + 32
                ||| 'A' <= b[i] <= 'Z' && a[i] as u32 == b[i] as u32 + 32
            }),
{
    if a.len() == b.len() {
        assert forall|i: int| 0 <= i < a.len() implies (folded(#[trigger] a[i]) == folded(b[i]))
            == {
            ||| a[i] == b[i]
            ||| 'A' <= a[i] <= 'Z' && b[i] as u32 == a[i] as u32 + 32
            ||| 'A' <= b[i] <= 'Z' && a[i] as u32 == b[i] as u32 + 32
        } by {
            case_is_that_of_ascii_letters(a[i], b[i]);
        }
        if same_ignoring_case(b, a) {
            assert forall|i: int| 0 <= i < a.len() implies folded(#[trigger] a[i]) == folded(
                b[i],
            ) by {
                assert(folded(b[i]) == folded(a[i]));
            }
        }
    }
}

/// The decimal notation of a number is that of its tenth with its last digit behind it; a number
/// below ten is one digit.
pub proof fn decimal_notation_is_positional(n: nat, d: nat)
    requires
        d < 10,
    ensures
        decimal_digits(d).len() == 1,
        decimal_digits(d)[0] as nat == '0' as nat + d,
        n > 0 ==> decimal_digits(10 * n + d) == decimal_digits(n).push(decimal_digits(d)[0]),
{
    if n > 0 {
        assert((10 * n + d) / 10 == n);
        assert((10 * n + d) % 10 == d);
    }
}

} // verus!
