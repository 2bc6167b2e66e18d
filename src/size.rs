//! Size strings of the form `"<w>% <h>%"`: whole percentages of the output.

use vstd::prelude::*;
use crate::text::{
    all_digits, chars_of, decimal, digits_value, is_digit, is_space, lemma_decimal_digits, parse_digits,
    push_char, push_decimal, split_tokens, tokens,
};

verus! {

/// A token `<digits>%`, read as its number.
pub open spec fn percent_token(t: Seq<char>) -> Option<nat> {
    if t.len() >= 2 && t.last() == '%' && all_digits(t.drop_last()) {
        Some(digits_value(t.drop_last()))
    } else {
        None
    }
}

/// Width and height percentages that a size string states: exactly two
/// whitespace-separated `<digits>%` tokens, each fitting in a `u32`.
pub open spec fn size_of_text(s: Seq<char>) -> Option<(u32, u32)> {
    let ts = tokens(s);
    if ts.len() == 2 && percent_token(ts[0]) is Some && percent_token(ts[1]) is Some
        && percent_token(ts[0])->Some_0 <= u32::MAX && percent_token(ts[1])->Some_0 <= u32::MAX {
        Some((percent_token(ts[0])->Some_0 as u32, percent_token(ts[1])->Some_0 as u32))
    } else {
        None
    }
}

/// The size string that `format_size` writes.
pub open spec fn size_text(w: nat, h: nat) -> Seq<char> {
    decimal(w).push('%').push(' ') + decimal(h).push('%')
}

/// `p` percent of `o`, rounded down.
pub open spec fn percent_of_spec(o: nat, p: nat) -> nat {
    o * p / 100
}

pub open spec fn no_space(t: Seq<char>) -> bool {
    forall|i: int| 0 <= i < t.len() ==> !is_space(#[trigger] t[i])
}

proof fn lemma_tokens_append_word(s: Seq<char>, t: Seq<char>)
    requires
        s.len() == 0 || is_space(s.last()),
        t.len() > 0,
        no_space(t),
    ensures
        tokens(s + t) == tokens(s).push(t),
    decreases t.len(),
{
    let st = s + t;
    if t.len() == 1 {
        assert(st.drop_last() =~= s);
        assert(st.last() == t[0]);
        if s.len() > 0 {
            assert(st[st.len() - 2] == s.last());
        }
        assert(seq![st.last()] =~= t);
    } else {
        let t1 = t.drop_last();
        assert(no_space(t1)) by {
            assert forall|i: int| 0 <= i < t1.len() implies !is_space(#[trigger] t1[i]) by {
                assert(t1[i] == t[i]);
            }
        }
        lemma_tokens_append_word(s, t1);
        assert(st.drop_last() =~= s + t1);
        assert(st[st.len() - 2] == t[t.len() - 2]);
        let rest = tokens(s + t1);
        assert(rest == tokens(s).push(t1));
        assert(st.last() == t.last());
        assert(!is_space(st.last()));
        assert(!is_space(st[st.len() - 2]));
        assert(t1.push(t.last()) =~= t);
        assert(tokens(st) == rest.update(rest.len() - 1, rest.last().push(st.last())));
        assert(rest.update(rest.len() - 1, rest.last().push(st.last())) =~= tokens(s).push(t));
    }
}

proof fn lemma_digits_no_space(n: nat)
    ensures
        no_space(decimal(n).push('%')),
{
    lemma_decimal_digits(n);
    let t = decimal(n).push('%');
    assert forall|i: int| 0 <= i < t.len() implies !is_space(#[trigger] t[i]) by {
        if i < t.len() - 1 {
            assert(is_digit(decimal(n)[i]));
        }
    }
}

proof fn lemma_percent_token(n: nat)
    ensures
        percent_token(decimal(n).push('%')) == Some(n),
{
    lemma_decimal_digits(n);
    assert(decimal(n).push('%').drop_last() =~= decimal(n));
}

/// Reading a written size gives back the two percentages.
#[verifier::rlimit(40)]
pub proof fn lemma_size_round_trip(w: u32, h: u32)
    ensures
        size_of_text(size_text(w as nat, h as nat)) == Some((w, h)),
{
    let a = decimal(w as nat).push('%');
    let b = decimal(h as nat).push('%');
    lemma_digits_no_space(w as nat);
    lemma_digits_no_space(h as nat);
    lemma_decimal_digits(w as nat);
    lemma_tokens_append_word(Seq::<char>::empty(), a);
    assert(Seq::<char>::empty() + a =~= a);
    let a2 = a.push(' ');
    assert(a2.drop_last() =~= a);
    assert(tokens(a2) == tokens(a));
    lemma_tokens_append_word(a2, b);
    assert(size_text(w as nat, h as nat) =~= a2 + b);
    lemma_percent_token(w as nat);
    lemma_percent_token(h as nat);
}

/// Writes a size string for the two percentages.
pub fn format_size(w: u32, h: u32) -> (r: String)
    ensures
        r@ == size_text(w as nat, h as nat),
{
    let mut r = String::new();
    push_decimal(&mut r, w);
    push_char(&mut r, '%');
    push_char(&mut r, ' ');
    push_decimal(&mut r, h);
    push_char(&mut r, '%');
    assert(r@ =~= size_text(w as nat, h as nat));
    r
}

/// Reads a `<digits>%` token.
fn parse_percent_token(t: &Vec<char>) -> (r: Option<u32>)
    ensures
        r matches Some(v) ==> percent_token(t@) == Some(v as nat),
        r is None <==> (percent_token(t@) is None || percent_token(t@)->Some_0 > u32::MAX),
{
    if t.len() < 2 || t[t.len() - 1] != '%' {
        return None;
    }
    let mut d: Vec<char> = Vec::new();
    let mut i: usize = 0;
    while i < t.len() - 1
        invariant
            t@.len() >= 2,
            i <= t@.len() - 1,
            d@ == t@.subrange(0, i as int),
            all_digits(d@),
        decreases t.len() - 1 - i,
    {
        if !('0' <= t[i] && t[i] <= '9') {
            assert(t@.drop_last()[i as int] == t@[i as int]);
            return None;
        }
        d.push(t[i]);
        i += 1;
    }
    assert(d@ =~= t@.drop_last());
    parse_digits(&d)
}

/// Reads a size string into its width and height percentages.
pub fn parse_size_text(s: &str) -> (r: Option<(u32, u32)>)
    ensures
        r == size_of_text(s@),
{
    let cs = chars_of(s);
    let ts = split_tokens(&cs);
    if ts.len() != 2 {
        return None;
    }
    let w = parse_percent_token(&ts[0]);
    let h = parse_percent_token(&ts[1]);
    match (w, h) {
        (Some(w), Some(h)) => Some((w, h)),
        _ => None,
    }
}

/// `p` percent of `o`, rounded down; `None` where that exceeds a `u32`.
pub fn percent_of(o: u32, p: u32) -> (r: Option<u32>)
    ensures
        r matches Some(v) ==> v as nat == percent_of_spec(o as nat, p as nat),
        r is None <==> percent_of_spec(o as nat, p as nat) > u32::MAX,
{
    let a = o as u64;
    let b = p as u64;
    assert(a * b <= 0xffff_fffe_0000_0001u64) by (nonlinear_arith)
        requires
            a <= 0xffff_ffffu64,
            b <= 0xffff_ffffu64,
    ;
    let v: u64 = a * b / 100;
    if v > u32::MAX as u64 {
        None
    } else {
        Some(v as u32)
    }
}

/// Whole of the output at one hundred percent.
pub proof fn lemma_percent_full(o: u32)
    ensures
        percent_of_spec(o as nat, 100) == o,
{
}

} // verus!
