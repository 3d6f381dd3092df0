//! Character-level helpers shared by the layout components: whitespace
//! classification, prefix tests, trimming, string equality and decimal
//! rendering of page numbers. Each executable function is specified
//! against a spec-level description of the same operation.

use vstd::prelude::*;

verus! {

/// Whitespace as Rust's `char::is_whitespace` classifies it: the Unicode
/// `White_Space` characters.
pub open spec fn is_space(c: char) -> bool {
    c == ' ' || c == '\t' || c == '\n' || c == '\u{b}' || c == '\u{c}' || c == '\r'
        || c == '\u{85}' || c == '\u{a0}' || c == '\u{1680}'
        || ('\u{2000}' <= c && c <= '\u{200a}')
        || c == '\u{2028}' || c == '\u{2029}' || c == '\u{202f}' || c == '\u{205f}'
        || c == '\u{3000}'
}

/// Executable whitespace test, equal to the spec-level `is_space`.
pub fn is_space_char(c: char) -> (r: bool)
    ensures
        r == is_space(c),
{
    c == ' ' || c == '\t' || c == '\n' || c == '\u{b}' || c == '\u{c}' || c == '\r'
        || c == '\u{85}' || c == '\u{a0}' || c == '\u{1680}'
        || ('\u{2000}' <= c && c <= '\u{200a}')
        || c == '\u{2028}' || c == '\u{2029}' || c == '\u{202f}' || c == '\u{205f}'
        || c == '\u{3000}'
}

/// `p` is a prefix of `s`.
pub open spec fn starts_with(s: Seq<char>, p: Seq<char>) -> bool {
    p.len() <= s.len() && s.subrange(0, p.len() as int) == p
}

/// Prefix test over character sequences.
pub fn str_starts_with(s: &str, p: &str) -> (r: bool)
    ensures
        r == starts_with(s@, p@),
{
    let slen = s.unicode_len();
    let plen = p.unicode_len();
    if plen > slen {
        assert(!starts_with(s@, p@));
        return false;
    }
    let mut i: usize = 0;
    while i < plen
        invariant
            i <= plen,
            plen <= slen,
            slen == s@.len(),
            plen == p@.len(),
            forall|j: int| 0 <= j < i ==> s@[j] == p@[j],
        decreases plen - i,
    {
        if s.get_char(i) != p.get_char(i) {
            assert(s@.subrange(0, p@.len() as int)[i as int] != p@[i as int]);
            return false;
        }
        i = i + 1;
    }
    assert(s@.subrange(0, p@.len() as int) =~= p@);
    true
}

/// Index of the first character of `s` that is not whitespace, or the
/// length of `s` when every character is whitespace.
pub open spec fn first_non_space(s: Seq<char>) -> int
    decreases s.len(),
{
    if s.len() == 0 {
        0
    } else if !is_space(s[0]) {
        0
    } else {
        1 + first_non_space(s.drop_first())
    }
}

/// One past the last character of `s` that is not whitespace, or zero when
/// every character is whitespace.
pub open spec fn end_non_space(s: Seq<char>) -> int
    decreases s.len(),
{
    if s.len() == 0 {
        0
    } else if !is_space(s.last()) {
        s.len() as int
    } else {
        end_non_space(s.drop_last())
    }
}

/// `s` with leading and trailing whitespace removed, as `str::trim` does.
pub open spec fn trimmed(s: Seq<char>) -> Seq<char> {
    if end_non_space(s) <= first_non_space(s) {
        Seq::empty()
    } else {
        s.subrange(first_non_space(s), end_non_space(s))
    }
}

proof fn lemma_first_non_space(s: Seq<char>)
    ensures
        0 <= first_non_space(s) <= s.len(),
        forall|j: int| 0 <= j < first_non_space(s) ==> is_space(s[j]),
        first_non_space(s) < s.len() ==> !is_space(s[first_non_space(s)]),
    decreases s.len(),
{
    if s.len() > 0 && is_space(s[0]) {
        lemma_first_non_space(s.drop_first());
        assert forall|j: int| 0 <= j < first_non_space(s) implies is_space(s[j]) by {
            if j > 0 {
                assert(s.drop_first()[j - 1] == s[j]);
            }
        }
        if first_non_space(s) < s.len() {
            assert(s.drop_first()[first_non_space(s) - 1] == s[first_non_space(s)]);
        }
    }
}

proof fn lemma_end_non_space(s: Seq<char>)
    ensures
        0 <= end_non_space(s) <= s.len(),
        forall|j: int| end_non_space(s) <= j < s.len() ==> is_space(s[j]),
        end_non_space(s) > 0 ==> !is_space(s[end_non_space(s) - 1]),
    decreases s.len(),
{
    if s.len() > 0 && is_space(s.last()) {
        lemma_end_non_space(s.drop_last());
        assert forall|j: int| end_non_space(s) <= j < s.len() implies is_space(s[j]) by {
            if j < s.len() - 1 {
                assert(s.drop_last()[j] == s[j]);
            }
        }
        if end_non_space(s) > 0 {
            assert(s.drop_last()[end_non_space(s) - 1] == s[end_non_space(s) - 1]);
        }
    }
}

/// Leading and trailing whitespace removed, as `str::trim`.
pub fn trim_str<'a>(s: &'a str) -> (r: &'a str)
    ensures
        r@ == trimmed(s@),
{
    proof {
        lemma_first_non_space(s@);
        lemma_end_non_space(s@);
    }
    let len = s.unicode_len();
    let mut a: usize = 0;
    while a < len && is_space_char(s.get_char(a))
        invariant
            a <= len,
            len == s@.len(),
            forall|j: int| 0 <= j < a ==> is_space(s@[j]),
        decreases len - a,
    {
        a = a + 1;
    }
    assert(a as int == first_non_space(s@));
    if a == len {
        let r = s.substring_char(0, 0);
        assert(r@ =~= trimmed(s@));
        return r;
    }
    let mut b: usize = len;
    while b > 0 && is_space_char(s.get_char(b - 1))
        invariant
            a < b <= len,
            len == s@.len(),
            !is_space(s@[a as int]),
            forall|j: int| b <= j < len ==> is_space(s@[j]),
        decreases b,
    {
        b = b - 1;
    }
    assert(b as int == end_non_space(s@));
    let r = s.substring_char(a, b);
    assert(r@ == trimmed(s@));
    r
}

/// The character for one decimal digit.
pub open spec fn digit_char(d: nat) -> char {
    if d == 0 {
        '0'
    } else if d == 1 {
        '1'
    } else if d == 2 {
        '2'
    } else if d == 3 {
        '3'
    } else if d == 4 {
        '4'
    } else if d == 5 {
        '5'
    } else if d == 6 {
        '6'
    } else if d == 7 {
        '7'
    } else if d == 8 {
        '8'
    } else {
        '9'
    }
}

/// Decimal representation of `n`, most significant digit first, no sign
/// and no leading zeros.
pub open spec fn dec_digits(n: nat) -> Seq<char>
    decreases n,
{
    if n < 10 {
        seq![digit_char(n)]
    } else {
        dec_digits(n / 10).push(digit_char(n % 10))
    }
}

fn digit_str(d: u64) -> (r: &'static str)
    requires
        d < 10,
    ensures
        r@ == seq![digit_char(d as nat)],
{
    if d == 0 {
        proof {
            reveal_strlit("0");
            assert("0"@ =~= seq![digit_char(d as nat)]);
        }
        "0"
    } else if d == 1 {
        proof {
            reveal_strlit("1");
            assert("1"@ =~= seq![digit_char(d as nat)]);
        }
        "1"
    } else if d == 2 {
        proof {
            reveal_strlit("2");
            assert("2"@ =~= seq![digit_char(d as nat)]);
        }
        "2"
    } else if d == 3 {
        proof {
            reveal_strlit("3");
            assert("3"@ =~= seq![digit_char(d as nat)]);
        }
        "3"
    } else if d == 4 {
        proof {
            reveal_strlit("4");
            assert("4"@ =~= seq![digit_char(d as nat)]);
        }
        "4"
    } else if d == 5 {
        proof {
            reveal_strlit("5");
            assert("5"@ =~= seq![digit_char(d as nat)]);
        }
        "5"
    } else if d == 6 {
        proof {
            reveal_strlit("6");
            assert("6"@ =~= seq![digit_char(d as nat)]);
        }
        "6"
    } else if d == 7 {
        proof {
            reveal_strlit("7");
            assert("7"@ =~= seq![digit_char(d as nat)]);
        }
        "7"
    } else if d == 8 {
        proof {
            reveal_strlit("8");
            assert("8"@ =~= seq![digit_char(d as nat)]);
        }
        "8"
    } else {
        proof {
            reveal_strlit("9");
            assert("9"@ =~= seq![digit_char(d as nat)]);
        }
        "9"
    }
}

/// Decimal rendering of an unsigned number.
pub fn u64_to_dec(n: u64) -> (r: String)
    ensures
        r@ == dec_digits(n as nat),
    decreases n,
{
    if n < 10 {
        let s = digit_str(n);
        s.to_owned()
    } else {
        let mut prefix = u64_to_dec(n / 10);
        let d = digit_str(n % 10);
        prefix.append(d);
        proof {
            assert(dec_digits(n as nat) =~= dec_digits((n / 10) as nat) + seq![
                digit_char((n % 10) as nat),
            ]);
        }
        prefix
    }
}

/// Index of the first newline in `s`, or the length when there is none.
pub open spec fn newline_pos(s: Seq<char>) -> int
    decreases s.len(),
{
    if s.len() == 0 {
        0
    } else if s[0] == '\n' {
        0
    } else {
        1 + newline_pos(s.drop_first())
    }
}

proof fn lemma_newline_pos(s: Seq<char>)
    ensures
        0 <= newline_pos(s) <= s.len(),
        forall|j: int| 0 <= j < newline_pos(s) ==> s[j] != '\n',
        newline_pos(s) < s.len() ==> s[newline_pos(s)] == '\n',
    decreases s.len(),
{
    if s.len() > 0 && s[0] != '\n' {
        lemma_newline_pos(s.drop_first());
        assert forall|j: int| 0 <= j < newline_pos(s) implies s[j] != '\n' by {
            if j > 0 {
                assert(s.drop_first()[j - 1] == s[j]);
            }
        }
        if newline_pos(s) < s.len() {
            assert(s.drop_first()[newline_pos(s) - 1] == s[newline_pos(s)]);
        }
    }
}

/// A line segment as `str::lines` yields it: a carriage return standing
/// last is dropped.
pub open spec fn strip_cr(l: Seq<char>) -> Seq<char> {
    if l.len() > 0 && l.last() == '\r' {
        l.drop_last()
    } else {
        l
    }
}

/// The lines of `s`, as `str::lines` splits them: terminated by `\n` or
/// `\r\n`, terminators not included, no final empty line for a trailing
/// newline.
pub open spec fn lines_of(s: Seq<char>) -> Seq<Seq<char>>
    decreases s.len(),
    via lines_of_dec
{
    if s.len() == 0 {
        Seq::empty()
    } else {
        let p = newline_pos(s);
        if p == s.len() {
            seq![s]
        } else {
            seq![strip_cr(s.take(p))] + lines_of(s.skip(p + 1))
        }
    }
}

#[via_fn]
proof fn lines_of_dec(s: Seq<char>) {
    lemma_newline_pos(s);
}

/// A document has no more lines than characters.
pub proof fn lemma_lines_count(s: Seq<char>)
    ensures
        lines_of(s).len() <= s.len(),
    decreases s.len(),
{
    if s.len() > 0 {
        lemma_newline_pos(s);
        let p = newline_pos(s);
        if p < s.len() {
            lemma_lines_count(s.skip(p + 1));
        }
    }
}

/// Splits a document into its lines, as `str::lines` does.
pub fn split_lines(content: &str) -> (out: Vec<String>)
    ensures
        out.deep_view() == lines_of(content@),
{
    let sv_len = content.unicode_len();
    let ghost sv = content@;
    let mut out: Vec<String> = Vec::new();
    let mut i: usize = 0;
    let mut st: usize = 0;
    proof {
        assert(out.deep_view() =~= Seq::<Seq<char>>::empty());
        assert(sv.skip(0) =~= sv);
    }
    while i < sv_len
        invariant
            st <= i <= sv_len,
            sv_len == sv.len(),
            sv == content@,
            forall|j: int| st <= j < i ==> sv[j] != '\n',
            lines_of(sv) == out.deep_view() + lines_of(sv.skip(st as int)),
        decreases sv_len - i,
    {
        let c = content.get_char(i);
        if c == '\n' {
            proof {
                let tail = sv.skip(st as int);
                lemma_newline_pos(tail);
                assert forall|j: int| 0 <= j < i - st implies tail[j] != '\n' by {
                    assert(tail[j] == sv[st + j]);
                }
                assert(tail[i - st] == sv[i as int]);
                assert(newline_pos(tail) == i - st);
                assert(tail.take(i - st) =~= sv.subrange(st as int, i as int));
                assert(tail.skip(i - st + 1) =~= sv.skip(i as int + 1));
            }
            let endl: usize = if i > st && content.get_char(i - 1) == '\r' {
                i - 1
            } else {
                i
            };
            let seg = content.substring_char(st, endl).to_owned();
            proof {
                assert(seg@ =~= strip_cr(sv.subrange(st as int, i as int)));
            }
            let ghost prev = out.deep_view();
            out.push(seg);
            proof {
                assert(out.deep_view() =~= prev.push(strip_cr(sv.subrange(st as int, i as int))));
                assert(prev + (seq![strip_cr(sv.subrange(st as int, i as int))] + lines_of(
                    sv.skip(i as int + 1),
                )) =~= out.deep_view() + lines_of(sv.skip(i as int + 1)));
            }
            st = i + 1;
        }
        i = i + 1;
    }
    if st < sv_len {
        proof {
            let tail = sv.skip(st as int);
            lemma_newline_pos(tail);
            assert forall|j: int| 0 <= j < tail.len() implies tail[j] != '\n' by {
                assert(tail[j] == sv[st + j]);
            }
            assert(newline_pos(tail) == tail.len());
        }
        let seg = content.substring_char(st, sv_len).to_owned();
        let ghost prev = out.deep_view();
        out.push(seg);
        proof {
            assert(seg@ == sv.skip(st as int));
            assert(out.deep_view() =~= prev.push(sv.skip(st as int)));
            assert(out.deep_view() =~= lines_of(sv));
        }
    } else {
        proof {
            assert(sv.skip(st as int) =~= Seq::<char>::empty());
            assert(out.deep_view() + Seq::<Seq<char>>::empty() =~= out.deep_view());
        }
    }
    out
}

/// Equality of two string slices, by their character sequences.
pub fn str_eq(a: &str, b: &str) -> (r: bool)
    ensures
        r == (a@ == b@),
{
    let alen = a.unicode_len();
    let blen = b.unicode_len();
    if alen != blen {
        return false;
    }
    let mut i: usize = 0;
    while i < alen
        invariant
            i <= alen,
            alen == a@.len(),
            blen == b@.len(),
            alen == blen,
            forall|j: int| 0 <= j < i ==> a@[j] == b@[j],
        decreases alen - i,
    {
        if a.get_char(i) != b.get_char(i) {
            return false;
        }
        i = i + 1;
    }
    assert(a@ =~= b@);
    true
}

} // verus!
