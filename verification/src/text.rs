//! Character-level helpers shared by the parsers: case folding, trimming and
//! searching over sequences of characters.

use vstd::prelude::*;

verus! {

/// The lower-case form of an ASCII capital letter; every other character
/// stands for itself.
pub open spec fn lower(c: char) -> char {
    if 'A' <= c && c <= 'Z' {
        ((c as u8) + 32) as char
    } else {
        c
    }
}

/// Whether `c` is white space (the characters with the Unicode property
/// `White_Space`).
pub open spec fn is_space(c: char) -> bool {
    ||| '\u{9}' <= c <= '\u{d}'
    ||| c == ' '
    ||| c == '\u{85}'
    ||| c == '\u{a0}'
    ||| c == '\u{1680}'
    ||| '\u{2000}' <= c <= '\u{200a}'
    ||| c == '\u{2028}'
    ||| c == '\u{2029}'
    ||| c == '\u{202f}'
    ||| c == '\u{205f}'
    ||| c == '\u{3000}'
}

/// Whether `c` is one of the ten decimal digits.
pub open spec fn is_digit(c: char) -> bool {
    '0' <= c <= '9'
}

/// Whether `c` is a lower-case ASCII letter.
pub open spec fn is_letter(c: char) -> bool {
    'a' <= c <= 'z'
}

/// `s` with every ASCII capital letter replaced by its lower-case form.
pub open spec fn lowered(s: Seq<char>) -> Seq<char> {
    Seq::new(s.len(), |i: int| lower(s[i]))
}

/// `s` without its leading and trailing white space.
pub open spec fn trimmed(s: Seq<char>) -> Seq<char>
    decreases s.len(),
{
    if s.len() > 0 && is_space(s.first()) {
        trimmed(s.drop_first())
    } else if s.len() > 0 && is_space(s.last()) {
        trimmed(s.drop_last())
    } else {
        s
    }
}

/// The form in which tokens are compared: lower case, without surrounding
/// white space.
pub open spec fn normalized(s: Seq<char>) -> Seq<char> {
    trimmed(lowered(s))
}

/// The position of the first `c` in `s` at or after `from`, or `s.len()` when
/// there is none.
pub open spec fn first_index_from(s: Seq<char>, c: char, from: int) -> int
    decreases s.len() - from,
{
    if from < 0 || from >= s.len() {
        s.len() as int
    } else if s[from] == c {
        from
    } else {
        first_index_from(s, c, from + 1)
    }
}

/// The position of the first `c` in `s`, or `s.len()` when there is none.
pub open spec fn first_index(s: Seq<char>, c: char) -> int {
    first_index_from(s, c, 0)
}

/// The number of characters of `s` up to and including the last `c` among the
/// first `upto`; zero when `c` does not occur there.
pub open spec fn after_last_upto(s: Seq<char>, c: char, upto: int) -> int
    decreases upto,
{
    if upto <= 0 || upto > s.len() {
        0
    } else if s[upto - 1] == c {
        upto
    } else {
        after_last_upto(s, c, upto - 1)
    }
}

/// The position just behind the last `c` in `s`; zero when `s` holds no `c`.
pub open spec fn after_last(s: Seq<char>, c: char) -> int {
    after_last_upto(s, c, s.len() as int)
}

/// `first_index` names the first occurrence: nothing before it is `c`, and it
/// is either the end of `s` or a position holding `c`.
pub proof fn lemma_first_index(s: Seq<char>, c: char, from: int)
    requires
        0 <= from <= s.len(),
    ensures
        from <= first_index_from(s, c, from) <= s.len(),
        first_index_from(s, c, from) < s.len() ==> s[first_index_from(s, c, from)] == c,
        forall|j: int| from <= j < first_index_from(s, c, from) ==> s[j] != c,
    decreases s.len() - from,
{
    if from < s.len() && s[from] != c {
        lemma_first_index(s, c, from + 1);
    }
}

/// Trimming leaves exactly the stretch between the leading and the trailing
/// white space.
pub proof fn lemma_trimmed_is_subrange(s: Seq<char>, a: int, b: int)
    requires
        0 <= a <= b <= s.len(),
        forall|j: int| 0 <= j < a ==> is_space(s[j]),
        forall|j: int| b <= j < s.len() ==> is_space(s[j]),
        a < b ==> !is_space(s[a]) && !is_space(s[b - 1]),
    ensures
        trimmed(s) == s.subrange(a, b),
    decreases s.len(),
{
    if s.len() > 0 && is_space(s.first()) {
        let rest = s.drop_first();
        if a > 0 {
            lemma_trimmed_is_subrange(rest, a - 1, b - 1);
            assert(rest.subrange(a - 1, b - 1) =~= s.subrange(a, b));
        } else {
            lemma_trimmed_is_subrange(rest, 0, 0);
            assert(rest.subrange(0, 0) =~= s.subrange(a, b));
        }
    } else if s.len() > 0 && is_space(s.last()) {
        let rest = s.drop_last();
        assert(a == 0) by {
            if a > 0 {
                assert(is_space(s[0]));
            }
        }
        lemma_trimmed_is_subrange(rest, 0, b);
        assert(rest.subrange(0, b) =~= s.subrange(a, b));
    } else {
        assert(a == 0) by {
            if a > 0 {
                assert(is_space(s[0]));
            }
        }
        assert(b == s.len()) by {
            if b < s.len() {
                assert(is_space(s[s.len() - 1]));
            }
        }
        assert(s.subrange(a, b) =~= s);
    }
}

/// Lower-cases one character.
pub fn to_lower(c: char) -> (r: char)
    ensures
        r == lower(c),
{
    if 'A' <= c && c <= 'Z' {
        ((c as u8) + 32) as char
    } else {
        c
    }
}

/// Tells white space from other characters.
pub fn char_is_space(c: char) -> (r: bool)
    ensures
        r == is_space(c),
{
    ('\u{9}' <= c && c <= '\u{d}') || c == ' ' || c == '\u{85}' || c == '\u{a0}' || c
        == '\u{1680}' || ('\u{2000}' <= c && c <= '\u{200a}') || c == '\u{2028}' || c
        == '\u{2029}' || c == '\u{202f}' || c == '\u{205f}' || c == '\u{3000}'
}

/// Tells decimal digits from other characters.
pub fn char_is_digit(c: char) -> (r: bool)
    ensures
        r == is_digit(c),
{
    '0' <= c && c <= '9'
}

/// Tells lower-case ASCII letters from other characters.
pub fn char_is_letter(c: char) -> (r: bool)
    ensures
        r == is_letter(c),
{
    'a' <= c && c <= 'z'
}

/// The characters of `s`, in order.
pub fn chars_of(s: &str) -> (v: Vec<char>)
    ensures
        v@ == s@,
{
    let mut v: Vec<char> = Vec::new();
    for c in it: s.chars()
        invariant
            v@ == it.seq().take(it.index() as int),
            it.seq() == s@,
    {
        v.push(c);
    }
    v
}

/// The characters of `s` in lower case, without surrounding white space.
pub fn normalize(s: &str) -> (v: Vec<char>)
    ensures
        v@ == normalized(s@),
{
    let raw = chars_of(s);
    let n = raw.len();
    let mut low: Vec<char> = Vec::new();
    let mut i: usize = 0;
    while i < n
        invariant
            n == raw.len(),
            i <= n,
            low@ == lowered(raw@.take(i as int)),
        decreases n - i,
    {
        low.push(to_lower(raw[i]));
        i += 1;
    }
    assert(raw@.take(n as int) =~= raw@);
    let mut start: usize = 0;
    while start < n && char_is_space(low[start])
        invariant
            n == low.len(),
            start <= n,
            forall|j: int| 0 <= j < start ==> is_space(low[j]),
        decreases n - start,
    {
        start += 1;
    }
    let mut end: usize = n;
    while end > start && char_is_space(low[end - 1])
        invariant
            n == low.len(),
            start <= end <= n,
            forall|j: int| end <= j < n ==> is_space(low[j]),
        decreases end,
    {
        end -= 1;
    }
    proof {
        lemma_trimmed_is_subrange(low@, start as int, end as int);
    }
    let mut out: Vec<char> = Vec::new();
    let mut k: usize = start;
    while k < end
        invariant
            n == low.len(),
            start <= k <= end <= n,
            out@ == low@.subrange(start as int, k as int),
        decreases end - k,
    {
        out.push(low[k]);
        k += 1;
    }
    out
}

/// The position of the first `c` in `s`, or `s.len()` when there is none.
pub fn find_first(s: &[char], c: char) -> (r: usize)
    ensures
        r == first_index(s@, c),
        r <= s.len(),
{
    let mut i: usize = 0;
    while i < s.len() && s[i] != c
        invariant
            i <= s.len(),
            first_index(s@, c) == first_index_from(s@, c, i as int),
        decreases s.len() - i,
    {
        i += 1;
    }
    i
}

/// The position just behind the last `c` in `s`; zero when `s` holds no `c`.
pub fn find_after_last(s: &[char], c: char) -> (r: usize)
    ensures
        r == after_last(s@, c),
        r <= s.len(),
{
    let mut i: usize = s.len();
    while i > 0 && s[i - 1] != c
        invariant
            i <= s.len(),
            after_last(s@, c) == after_last_upto(s@, c, i as int),
        decreases i,
    {
        i -= 1;
    }
    i
}

/// Whether `s` spells exactly the text `lit`.
pub fn spells(s: &[char], lit: &str) -> (r: bool)
    ensures
        r == (s@ == lit@),
{
    let text = chars_of(lit);
    let n = text.len();
    if s.len() != n {
        return false;
    }
    let mut i: usize = 0;
    while i < n
        invariant
            n == s.len(),
            n == text.len(),
            text@ == lit@,
            i <= n,
            forall|j: int| 0 <= j < i ==> s[j] == text[j],
        decreases n - i,
    {
        if s[i] != text[i] {
            return false;
        }
        i += 1;
    }
    assert(s@ =~= text@);
    true
}

/// [`String::push`]: the text afterwards is the text before with `c` added
/// at its end.
#[verifier::external_body]
fn push_char(s: &mut String, c: char)
    ensures
        final(s)@ == old(s)@.push(c),
{
    s.push(c)
}

/// The text that `chars` spell.
pub fn text_of(chars: &[char]) -> (s: String)
    ensures
        s@ == chars@,
{
    let mut s = String::new();
    let mut i: usize = 0;
    while i < chars.len()
        invariant
            i <= chars.len(),
            s@ == chars@.take(i as int),
        decreases chars.len() - i,
    {
        push_char(&mut s, chars[i]);
        i += 1;
    }
    s
}

} // verus!
