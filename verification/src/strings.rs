//! Small string helpers shared by the covering and the wire codec.

use vstd::prelude::*;

verus! {

/// Relies on `String::push`: appends one character at the end of the string.
#[verifier::external_body]
pub(crate) fn push_char(s: &mut String, c: char)
    ensures
        final(s)@ == old(s)@.push(c),
{
    s.push(c);
}

/// Whether the texts of two strings are equal.
pub fn string_eq_str(a: &String, b: &str) -> (r: bool)
    ensures
        r == (a@ == b@),
{
    let an = a.as_str().unicode_len();
    let bn = b.unicode_len();
    if an != bn {
        return false;
    }
    let mut i: usize = 0;
    while i < an
        invariant
            an == a@.len(),
            bn == b@.len(),
            an == bn,
            0 <= i <= an,
            forall|k: int| 0 <= k < i ==> a@[k] == b@[k],
        decreases an - i,
    {
        if a.as_str().get_char(i) != b.get_char(i) {
            return false;
        }
        i = i + 1;
    }
    proof {
        assert(a@ =~= b@);
    }
    true
}

/// The pieces of `s` after index `i`, with `cur` the piece being read:
/// each separator ends a piece, and the end of the text ends the last
/// piece.
pub open spec fn split_from(s: Seq<char>, sep: char, i: int, cur: Seq<char>) -> Seq<Seq<char>>
    decreases s.len() - i,
{
    if i < 0 || i >= s.len() {
        seq![cur]
    } else if s[i] == sep {
        seq![cur] + split_from(s, sep, i + 1, Seq::empty())
    } else {
        split_from(s, sep, i + 1, cur.push(s[i]))
    }
}

/// The pieces of `s` between the separators.  Splitting an empty text
/// gives one empty piece, like `str::split`.
pub open spec fn split_chars(s: Seq<char>, sep: char) -> Seq<Seq<char>> {
    split_from(s, sep, 0, Seq::empty())
}

/// The texts of a vector of strings.
pub open spec fn views_of(v: Seq<String>) -> Seq<Seq<char>> {
    Seq::new(v.len(), |i: int| v[i]@)
}

/// Split `s` at every occurrence of `sep`.
pub fn split_on(s: &str, sep: char) -> (r: Vec<String>)
    ensures
        views_of(r@) == split_chars(s@, sep),
{
    let n = s.unicode_len();
    let mut out: Vec<String> = Vec::new();
    let mut cur = String::new();
    let mut i: usize = 0;
    proof {
        assert(views_of(out@) + split_from(s@, sep, 0, cur@) =~= split_from(
            s@,
            sep,
            0,
            Seq::<char>::empty(),
        ));
    }
    while i < n
        invariant
            n == s@.len(),
            0 <= i <= n,
            split_chars(s@, sep) == views_of(out@) + split_from(s@, sep, i as int, cur@),
        decreases n - i,
    {
        let c = s.get_char(i);
        if c == sep {
            let ghost prev_out = out@;
            let ghost pcur = cur@;
            out.push(cur);
            cur = String::new();
            proof {
                assert(views_of(out@) =~= views_of(prev_out).push(pcur));
                assert(views_of(out@) + split_from(s@, sep, i as int + 1, Seq::<char>::empty())
                    =~= views_of(prev_out) + split_from(s@, sep, i as int, pcur));
            }
        } else {
            push_char(&mut cur, c);
        }
        i = i + 1;
    }
    let ghost prev_out = out@;
    let ghost pcur = cur@;
    out.push(cur);
    proof {
        assert(views_of(out@) =~= views_of(prev_out).push(pcur));
        assert(views_of(out@) =~= split_chars(s@, sep));
    }
    out
}

/// An ASCII whitespace character, as trimmed from configuration values.
pub open spec fn is_space(c: char) -> bool {
    c == ' ' || c == '\t' || c == '\n' || c == '\r'
}

/// `s` without its leading whitespace.
pub open spec fn trim_start_spec(s: Seq<char>) -> Seq<char>
    decreases s.len(),
{
    if s.len() > 0 && is_space(s[0]) {
        trim_start_spec(s.drop_first())
    } else {
        s
    }
}

/// `s` without its trailing whitespace.
pub open spec fn trim_end_spec(s: Seq<char>) -> Seq<char>
    decreases s.len(),
{
    if s.len() > 0 && is_space(s[s.len() - 1]) {
        trim_end_spec(s.drop_last())
    } else {
        s
    }
}

/// `s` without leading and trailing whitespace.
pub open spec fn trim_spec(s: Seq<char>) -> Seq<char> {
    trim_end_spec(trim_start_spec(s))
}

/// Dropping a whitespace prefix leaves the trimmed-start text.
proof fn lemma_trim_start_at(s: Seq<char>, a: int)
    requires
        0 <= a <= s.len(),
        forall|k: int| 0 <= k < a ==> is_space(#[trigger] s[k]),
        a < s.len() ==> !is_space(s[a]),
    ensures
        trim_start_spec(s) == s.subrange(a, s.len() as int),
    decreases a,
{
    if a == 0 {
        assert(trim_start_spec(s) =~= s.subrange(0, s.len() as int));
    } else {
        let t = s.drop_first();
        assert(is_space(s[0]));
        assert forall|k: int| 0 <= k < a - 1 implies is_space(#[trigger] t[k]) by {
            assert(t[k] == s[k + 1]);
        }
        lemma_trim_start_at(t, a - 1);
        assert(t.subrange(a - 1, t.len() as int) =~= s.subrange(a, s.len() as int));
    }
}

/// Dropping a whitespace suffix leaves the trimmed-end text.
proof fn lemma_trim_end_at(s: Seq<char>, b: int)
    requires
        0 <= b <= s.len(),
        forall|k: int| b <= k < s.len() ==> is_space(#[trigger] s[k]),
        b > 0 ==> !is_space(s[b - 1]),
    ensures
        trim_end_spec(s) == s.subrange(0, b),
    decreases s.len() - b,
{
    if b == s.len() {
        assert(trim_end_spec(s) =~= s.subrange(0, b));
    } else {
        let t = s.drop_last();
        assert(is_space(s[s.len() - 1]));
        lemma_trim_end_at(t, b);
        assert(t.subrange(0, b) =~= s.subrange(0, b));
    }
}

/// `s` with leading and trailing ASCII whitespace removed.
pub fn trim(s: &str) -> (r: String)
    ensures
        r@ == trim_spec(s@),
{
    let n = s.unicode_len();
    let mut a: usize = 0;
    while a < n && is_space_exec(s.get_char(a))
        invariant
            n == s@.len(),
            0 <= a <= n,
            forall|k: int| 0 <= k < a ==> is_space(#[trigger] s@[k]),
        decreases n - a,
    {
        a = a + 1;
    }
    proof {
        lemma_trim_start_at(s@, a as int);
    }
    if a == n {
        proof {
            assert(trim_start_spec(s@) =~= Seq::<char>::empty());
            assert(trim_spec(s@) =~= Seq::<char>::empty());
        }
        return String::new();
    }
    let mut b: usize = n;
    while b > a && is_space_exec(s.get_char(b - 1))
        invariant
            n == s@.len(),
            0 <= a <= b <= n,
            a < n,
            !is_space(s@[a as int]),
            forall|k: int| b <= k < n ==> is_space(#[trigger] s@[k]),
        decreases b,
    {
        b = b - 1;
    }
    let piece = s.substring_char(a, b);
    proof {
        let t = trim_start_spec(s@);
        assert(t == s@.subrange(a as int, n as int));
        assert forall|k: int| b - a <= k < t.len() implies is_space(#[trigger] t[k]) by {
            assert(t[k] == s@[k + a]);
        }
        assert(b > a);
        assert(!is_space(t[b - a - 1])) by {
            assert(t[b - a - 1] == s@[b - 1]);
        }
        lemma_trim_end_at(t, b as int - a as int);
        assert(t.subrange(0, b - a) =~= s@.subrange(a as int, b as int));
    }
    piece.to_owned()
}

/// Whether the character is ASCII whitespace.
pub fn is_space_exec(c: char) -> (r: bool)
    ensures
        r == is_space(c),
{
    c == ' ' || c == '\t' || c == '\n' || c == '\r'
}

/// The text before the first occurrence of `sep`, and the text after it;
/// nothing when `sep` does not occur.
pub open spec fn split_once_spec(s: Seq<char>, sep: char) -> Option<(Seq<char>, Seq<char>)>
    decreases s.len(),
{
    if s.len() == 0 {
        Option::None
    } else if s[0] == sep {
        Option::Some((Seq::empty(), s.drop_first()))
    } else {
        match split_once_spec(s.drop_first(), sep) {
            Option::None => Option::None,
            Option::Some(parts) => Option::Some((seq![s[0]] + parts.0, parts.1)),
        }
    }
}

/// The first separator position determines the two pieces.
proof fn lemma_split_once_at(s: Seq<char>, sep: char, j: int)
    requires
        0 <= j < s.len(),
        s[j] == sep,
        forall|k: int| 0 <= k < j ==> #[trigger] s[k] != sep,
    ensures
        split_once_spec(s, sep) == Option::Some(
            (s.subrange(0, j), s.subrange(j + 1, s.len() as int)),
        ),
    decreases j,
{
    if j == 0 {
        assert(s.drop_first() =~= s.subrange(1, s.len() as int));
        assert(Seq::<char>::empty() =~= s.subrange(0, 0));
    } else {
        let t = s.drop_first();
        assert forall|k: int| 0 <= k < j - 1 implies #[trigger] t[k] != sep by {
            assert(t[k] == s[k + 1]);
        }
        lemma_split_once_at(t, sep, j - 1);
        assert(seq![s[0]] + t.subrange(0, j - 1) =~= s.subrange(0, j));
        assert(t.subrange(j, t.len() as int) =~= s.subrange(j + 1, s.len() as int));
    }
}

/// Without the separator there are no pieces.
proof fn lemma_split_once_none(s: Seq<char>, sep: char)
    requires
        forall|k: int| 0 <= k < s.len() ==> #[trigger] s[k] != sep,
    ensures
        split_once_spec(s, sep) is None,
    decreases s.len(),
{
    if s.len() > 0 {
        let t = s.drop_first();
        assert forall|k: int| 0 <= k < t.len() implies #[trigger] t[k] != sep by {
            assert(t[k] == s[k + 1]);
        }
        lemma_split_once_none(t, sep);
    }
}

/// Split `s` at the first occurrence of `sep`, like `str::split_once`.
pub fn split_once_at(s: &str, sep: char) -> (r: Option<(String, String)>)
    ensures
        r is None <==> split_once_spec(s@, sep) is None,
        r is Some ==> split_once_spec(s@, sep) == Option::Some(
            (((r->0).0)@, ((r->0).1)@),
        ),
{
    let n = s.unicode_len();
    let mut j: usize = 0;
    while j < n && s.get_char(j) != sep
        invariant
            n == s@.len(),
            0 <= j <= n,
            forall|k: int| 0 <= k < j ==> #[trigger] s@[k] != sep,
        decreases n - j,
    {
        j = j + 1;
    }
    if j == n {
        proof {
            lemma_split_once_none(s@, sep);
        }
        return Option::None;
    }
    proof {
        lemma_split_once_at(s@, sep, j as int);
    }
    let before = s.substring_char(0, j).to_owned();
    let after = s.substring_char(j + 1, n).to_owned();
    Option::Some((before, after))
}

/// The digit value of a decimal digit character.
pub open spec fn digit_of(c: char) -> int {
    c as int - 48
}

/// A decimal digit character.
pub open spec fn is_digit(c: char) -> bool {
    48 <= c as int <= 57
}

/// The value of the decimal digits of `s` from index `i` on, given the
/// value read so far; nothing on a non-digit or past the machine range.
pub open spec fn parse_digits_from(s: Seq<char>, i: int, acc: int) -> Option<int>
    decreases s.len() - i,
{
    if i < 0 || i >= s.len() {
        Option::Some(acc)
    } else if !is_digit(s[i]) {
        Option::None
    } else if acc * 10 + digit_of(s[i]) > usize::MAX {
        Option::None
    } else {
        parse_digits_from(s, i + 1, acc * 10 + digit_of(s[i]))
    }
}

/// The machine value of a decimal text with an optional leading plus
/// sign, like `usize::from_str` reads it; nothing when the text is empty,
/// holds another character, or exceeds the machine range.
pub open spec fn parse_usize_spec(s: Seq<char>) -> Option<int> {
    if s.len() == 0 {
        Option::None
    } else if s[0] == '+' {
        if s.len() == 1 {
            Option::None
        } else {
            parse_digits_from(s, 1, 0)
        }
    } else {
        parse_digits_from(s, 0, 0)
    }
}

/// Read a machine integer from decimal text.
pub fn parse_usize(s: &str) -> (r: Option<usize>)
    ensures
        r is None <==> parse_usize_spec(s@) is None,
        r is Some ==> parse_usize_spec(s@) == Option::Some(r->0 as int),
{
    let n = s.unicode_len();
    if n == 0 {
        return Option::None;
    }
    let mut i: usize = 0;
    if s.get_char(0) == '+' {
        if n == 1 {
            return Option::None;
        }
        i = 1;
    }
    let ghost start = i as int;
    let mut acc: usize = 0;
    while i < n
        invariant
            n == s@.len(),
            0 < n,
            start <= i <= n,
            0 <= start <= 1,
            start == 1 ==> s@[0] == '+' && n > 1,
            start == 0 ==> s@[0] != '+',
            parse_usize_spec(s@) == parse_digits_from(s@, i as int, acc as int),
        decreases n - i,
    {
        let c = s.get_char(i);
        let cu = c as u32;
        if cu < 48 || cu > 57 {
            return Option::None;
        }
        let d: usize = (cu - 48) as usize;
        proof {
            assert(d == digit_of(s@[i as int]));
            assert(0 <= d <= 9);
        }
        let wide: u128 = (acc as u128) * 10 + (d as u128);
        if wide > usize::MAX as u128 {
            return Option::None;
        }
        acc = (wide as usize);
        i = i + 1;
    }
    Option::Some(acc)
}

/// Whether some entry of `v` holds the characters of `s`.
pub fn contains_string(v: &Vec<String>, s: &String) -> (r: bool)
    ensures
        r == exists|k: int| 0 <= k < v@.len() && #[trigger] v@[k]@ == s@,
{
    let n = v.len();
    let mut i: usize = 0;
    while i < n
        invariant
            n == v@.len(),
            0 <= i <= n,
            forall|k: int| 0 <= k < i ==> #[trigger] v@[k]@ != s@,
        decreases n - i,
    {
        if v[i].eq(s) {
            return true;
        }
        i = i + 1;
    }
    false
}

} // verus!
