//! Verified building blocks for the string work the rest of the library
//! does: equality, prefix/suffix/substring tests, splitting, trimming and
//! decimal parsing, each specified over the character-sequence view.

use vstd::prelude::*;
use vstd::string::StrSliceExecFns;
use vstd::string::StringExecFns;

verus! {

/// `p` is a prefix of `s`.
pub open spec fn is_prefix_of(p: Seq<char>, s: Seq<char>) -> bool {
    p.len() <= s.len() && s.subrange(0, p.len() as int) == p
}

/// `p` is a suffix of `s`.
pub open spec fn is_suffix_of(p: Seq<char>, s: Seq<char>) -> bool {
    p.len() <= s.len() && s.subrange(s.len() - p.len(), s.len() as int) == p
}

/// `needle` occurs in `s` starting at position `i`.
pub open spec fn occurs_at(s: Seq<char>, needle: Seq<char>, i: int) -> bool {
    0 <= i && i + needle.len() <= s.len() && s.subrange(i, i + needle.len()) == needle
}

/// `needle` occurs somewhere in `s`.
pub open spec fn contains_seq(s: Seq<char>, needle: Seq<char>) -> bool {
    exists|i: int| occurs_at(s, needle, i)
}

/// Character-wise equality of two string slices.
pub fn str_eq(a: &str, b: &str) -> (r: bool)
    ensures
        r == (a@ == b@),
{
    a.to_owned() == b.to_owned()
}

/// Whether `s` starts with `prefix`.
pub fn str_starts_with(s: &str, prefix: &str) -> (r: bool)
    ensures
        r == is_prefix_of(prefix@, s@),
{
    let n = s.unicode_len();
    let m = prefix.unicode_len();
    if m > n {
        return false;
    }
    let head = s.substring_char(0, m);
    str_eq(head, prefix)
}

/// Whether `s` ends with `suffix`.
pub fn str_ends_with(s: &str, suffix: &str) -> (r: bool)
    ensures
        r == is_suffix_of(suffix@, s@),
{
    let n = s.unicode_len();
    let m = suffix.unicode_len();
    if m > n {
        return false;
    }
    let tail = s.substring_char(n - m, n);
    str_eq(tail, suffix)
}

/// Whether `needle` occurs anywhere in `s`.
pub fn str_contains(s: &str, needle: &str) -> (r: bool)
    ensures
        r == contains_seq(s@, needle@),
{
    let n = s.unicode_len();
    let m = needle.unicode_len();
    if m > n {
        proof {
            assert(forall|i: int| !occurs_at(s@, needle@, i));
        }
        return false;
    }
    if m == 0 {
        proof {
            assert(s@.subrange(0, 0) =~= needle@);
            assert(occurs_at(s@, needle@, 0));
        }
        return true;
    }
    let mut i: usize = 0;
    while i <= n - m
        invariant
            n == s@.len(),
            m == needle@.len(),
            1 <= m <= n,
            i as int <= n as int - m as int + 1,
            forall|j: int| 0 <= j < i ==> !occurs_at(s@, needle@, j),
        decreases n - m - i + 1,
    {
        let window = s.substring_char(i, i + m);
        if str_eq(window, needle) {
            proof {
                assert(occurs_at(s@, needle@, i as int));
            }
            return true;
        }
        i = i + 1;
    }
    proof {
        assert(forall|j: int| occurs_at(s@, needle@, j) ==> 0 <= j <= n - m);
    }
    false
}

/// What splitting `s` on the separator yields: the parts between the
/// occurrences of `sep`, in order, empty parts included — one part more than
/// there are separators.
pub open spec fn split_on(s: Seq<char>, sep: char) -> Seq<Seq<char>>
    decreases s.len(),
{
    if s.len() == 0 {
        seq![Seq::empty()]
    } else {
        let rest = split_on(s.drop_last(), sep);
        if s.last() == sep {
            rest.push(Seq::empty())
        } else {
            rest.update(rest.len() - 1, rest.last().push(s.last()))
        }
    }
}

/// A split always yields at least one part.
pub proof fn lemma_split_on_len(s: Seq<char>, sep: char)
    ensures
        split_on(s, sep).len() >= 1,
    decreases s.len(),
{
    if s.len() > 0 {
        lemma_split_on_len(s.drop_last(), sep);
    }
}

/// Splits `s` on every occurrence of `sep`, keeping empty parts.
pub fn split_char(s: &str, sep: char) -> (parts: Vec<String>)
    ensures
        parts@.map_values(|p: String| p@) == split_on(s@, sep),
{
    let n = s.unicode_len();
    let mut parts: Vec<String> = Vec::new();
    let mut start: usize = 0;
    let mut i: usize = 0;
    proof {
        assert(parts@.map_values(|p: String| p@).push(s@.subrange(0, 0)) =~~= split_on(
            s@.take(0),
            sep,
        ));
    }
    while i < n
        invariant
            n == s@.len(),
            start <= i <= n,
            parts@.map_values(|p: String| p@).push(s@.subrange(start as int, i as int))
                == split_on(s@.take(i as int), sep),
        decreases n - i,
    {
        let c = s.get_char(i);
        proof {
            assert(s@.take(i + 1).drop_last() =~= s@.take(i as int));
            lemma_split_on_len(s@.take(i as int), sep);
        }
        if c == sep {
            let part = s.substring_char(start, i).to_owned();
            parts.push(part);
            start = i + 1;
            proof {
                assert(parts@.map_values(|p: String| p@).push(
                    s@.subrange(start as int, i + 1),
                ) =~~= split_on(s@.take(i + 1), sep));
            }
        } else {
            proof {
                assert(s@.subrange(start as int, i + 1) =~= s@.subrange(
                    start as int,
                    i as int,
                ).push(s@[i as int]));
                assert(parts@.map_values(|p: String| p@).push(
                    s@.subrange(start as int, i + 1),
                ) =~~= split_on(s@.take(i + 1), sep));
            }
        }
        i = i + 1;
    }
    let ghost before = parts@;
    let last = s.substring_char(start, n).to_owned();
    parts.push(last);
    proof {
        assert(s@.take(n as int) =~= s@);
        assert(parts@.map_values(|p: String| p@) =~~= before.map_values(|p: String| p@).push(
            last@,
        ));
    }
    parts
}

/// Parts joined by a separator, in order: no separator around the ends, one
/// between each two consecutive parts.
pub open spec fn joined_with(parts: Seq<Seq<char>>, sep: Seq<char>) -> Seq<char>
    decreases parts.len(),
{
    if parts.len() == 0 {
        Seq::empty()
    } else if parts.len() == 1 {
        parts[0]
    } else {
        parts[0] + sep + joined_with(parts.skip(1), sep)
    }
}

/// Joining one more part prepends a separator unless it is the first.
pub proof fn lemma_joined_with_take_succ(parts: Seq<Seq<char>>, sep: Seq<char>, i: int)
    requires
        0 <= i < parts.len(),
    ensures
        joined_with(parts.take(i + 1), sep) == if i == 0 {
            parts[0]
        } else {
            joined_with(parts.take(i), sep) + sep + parts[i]
        },
    decreases i,
{
    if i == 0 {
        assert(parts.take(1) =~= seq![parts[0]]);
    } else {
        let front = parts.take(i + 1);
        assert(front.skip(1) =~= parts.skip(1).take(i));
        assert(parts.take(i).skip(1) =~= parts.skip(1).take(i - 1));
        assert(parts.take(i)[0] == parts[0]);
        lemma_joined_with_take_succ(parts.skip(1), sep, i - 1);
        if i == 1 {
            assert(parts.skip(1).take(1) =~= seq![parts[1]]);
            assert(parts.take(1) =~= seq![parts[0]]);
        } else {
            assert(parts.skip(1)[i - 1] == parts[i]);
        }
    }
}

/// Joins parts with a separator.
pub fn join_with(parts: &Vec<String>, sep: &str) -> (r: String)
    ensures
        r@ == joined_with(parts@.map_values(|p: String| p@), sep@),
{
    let ghost views = parts@.map_values(|p: String| p@);
    let n = parts.len();
    let mut r = String::new();
    let mut i: usize = 0;
    while i < n
        invariant
            n == parts@.len(),
            i <= n,
            views == parts@.map_values(|p: String| p@),
            r@ == joined_with(views.take(i as int), sep@),
        decreases n - i,
    {
        if i > 0 {
            r.append(sep);
        }
        r.append(parts[i].as_str());
        proof {
            assert(views[i as int] == parts@[i as int]@);
            lemma_joined_with_take_succ(views, sep@, i as int);
        }
        i = i + 1;
    }
    proof {
        assert(views.take(n as int) =~= views);
    }
    r
}

/// The leading run of non-whitespace characters of `s` — what the first
/// whitespace-separated token of an already left-trimmed string is.
pub open spec fn leading_token(s: Seq<char>) -> Seq<char>
    decreases s.len(),
{
    if s.len() == 0 || is_space(s[0]) {
        Seq::empty()
    } else {
        seq![s[0]] + leading_token(s.skip(1))
    }
}

/// Extracts the leading run of non-whitespace characters.
pub fn first_token(s: &str) -> (r: String)
    ensures
        r@ == leading_token(s@),
{
    let n = s.unicode_len();
    let mut i: usize = 0;
    proof {
        assert(s@.skip(0) =~= s@);
        assert(s@.subrange(0, 0) + leading_token(s@) =~= leading_token(s@));
    }
    while i < n && !is_space_char(s.get_char(i))
        invariant
            n == s@.len(),
            i <= n,
            leading_token(s@) == s@.subrange(0, i as int) + leading_token(s@.skip(i as int)),
        decreases n - i,
    {
        proof {
            assert(s@.skip(i as int)[0] == s@[i as int]);
            assert(s@.skip(i as int).skip(1) =~= s@.skip(i + 1));
            assert(s@.subrange(0, i as int) + (seq![s@[i as int]] + leading_token(
                s@.skip(i + 1),
            )) =~= s@.subrange(0, i + 1) + leading_token(s@.skip(i + 1)));
        }
        i = i + 1;
    }
    proof {
        if i < n {
            assert(s@.skip(i as int)[0] == s@[i as int]);
            assert(leading_token(s@.skip(i as int)) =~= Seq::<char>::empty());
        } else {
            assert(s@.skip(i as int) =~= Seq::<char>::empty());
        }
        assert(leading_token(s@) =~= s@.subrange(0, i as int));
    }
    s.substring_char(0, i).to_owned()
}

/// The ASCII whitespace the trimming functions strip.
pub open spec fn is_space(c: char) -> bool {
    c == ' ' || c == '\t' || c == '\n' || c == '\r'
}

/// `s` with leading whitespace stripped.
pub open spec fn trim_front(s: Seq<char>) -> Seq<char>
    decreases s.len(),
{
    if s.len() > 0 && is_space(s[0]) {
        trim_front(s.skip(1))
    } else {
        s
    }
}

/// `s` with trailing whitespace stripped.
pub open spec fn trim_back(s: Seq<char>) -> Seq<char>
    decreases s.len(),
{
    if s.len() > 0 && is_space(s.last()) {
        trim_back(s.drop_last())
    } else {
        s
    }
}

/// `s` with whitespace stripped from both ends.
pub open spec fn trimmed(s: Seq<char>) -> Seq<char> {
    trim_back(trim_front(s))
}

/// Whether a character is the ASCII whitespace the trimming strips.
pub fn is_space_char(c: char) -> (r: bool)
    ensures
        r == is_space(c),
{
    c == ' ' || c == '\t' || c == '\n' || c == '\r'
}

/// Strips ASCII whitespace from both ends.
pub fn str_trim(s: &str) -> (r: String)
    ensures
        r@ == trimmed(s@),
{
    let n = s.unicode_len();
    let mut lo: usize = 0;
    proof {
        assert(s@.skip(0) =~= s@);
    }
    while lo < n && is_space_char(s.get_char(lo))
        invariant
            n == s@.len(),
            lo <= n,
            trim_front(s@) == trim_front(s@.skip(lo as int)),
        decreases n - lo,
    {
        proof {
            assert(s@.skip(lo as int)[0] == s@[lo as int]);
            assert(s@.skip(lo as int).skip(1) =~= s@.skip(lo + 1));
        }
        lo = lo + 1;
    }
    proof {
        if lo < n {
            assert(s@.skip(lo as int)[0] == s@[lo as int]);
            assert(trim_front(s@.skip(lo as int)) == s@.skip(lo as int));
        } else {
            assert(s@.skip(lo as int) =~= Seq::<char>::empty());
        }
        assert(trim_front(s@) == s@.skip(lo as int));
    }
    let mut hi: usize = n;
    proof {
        assert(s@.skip(lo as int).take(n - lo as int) =~= s@.skip(lo as int));
    }
    while hi > lo && is_space_char(s.get_char(hi - 1))
        invariant
            n == s@.len(),
            lo <= hi <= n,
            trim_front(s@) == s@.skip(lo as int),
            trim_back(s@.skip(lo as int)) == trim_back(s@.skip(lo as int).take(hi - lo as int)),
        decreases hi,
    {
        proof {
            let inner = s@.skip(lo as int).take(hi - lo as int);
            assert(inner.last() == s@[hi - 1]);
            assert(inner.drop_last() =~= s@.skip(lo as int).take(hi - 1 - lo as int));
        }
        hi = hi - 1;
    }
    proof {
        let inner = s@.skip(lo as int).take(hi - lo as int);
        if hi > lo {
            assert(inner.last() == s@[hi - 1]);
            assert(trim_back(inner) == inner);
        } else {
            assert(inner =~= Seq::<char>::empty());
        }
        assert(inner =~= s@.subrange(lo as int, hi as int));
    }
    s.substring_char(lo, hi).to_owned()
}

/// The second whitespace-separated token of `s`; empty when there are fewer
/// than two tokens.
pub open spec fn second_token_spec(s: Seq<char>) -> Seq<char> {
    let rest = trim_front(s);
    let t1 = leading_token(rest);
    let rest2 = trim_front(rest.skip(t1.len() as int));
    leading_token(rest2)
}

/// First position at or after `from` holding a non-whitespace character.
fn skip_spaces(s: &str, from: usize) -> (lo: usize)
    requires
        from <= s@.len(),
    ensures
        from <= lo <= s@.len(),
        trim_front(s@.skip(from as int)) == s@.skip(lo as int),
{
    let n = s.unicode_len();
    let mut lo: usize = from;
    while lo < n && is_space_char(s.get_char(lo))
        invariant
            n == s@.len(),
            from <= lo <= n,
            trim_front(s@.skip(from as int)) == trim_front(s@.skip(lo as int)),
        decreases n - lo,
    {
        proof {
            assert(s@.skip(lo as int)[0] == s@[lo as int]);
            assert(s@.skip(lo as int).skip(1) =~= s@.skip(lo + 1));
        }
        lo = lo + 1;
    }
    proof {
        if lo < n {
            assert(s@.skip(lo as int)[0] == s@[lo as int]);
        } else {
            assert(s@.skip(lo as int) =~= Seq::<char>::empty());
        }
    }
    lo
}

/// Position just past the non-whitespace run starting at `from`.
fn token_end(s: &str, from: usize) -> (end: usize)
    requires
        from <= s@.len(),
    ensures
        from <= end <= s@.len(),
        leading_token(s@.skip(from as int)) == s@.subrange(from as int, end as int),
{
    let n = s.unicode_len();
    let mut end: usize = from;
    proof {
        assert(s@.subrange(from as int, from as int) + leading_token(s@.skip(from as int))
            =~= leading_token(s@.skip(from as int)));
    }
    while end < n && !is_space_char(s.get_char(end))
        invariant
            n == s@.len(),
            from <= end <= n,
            leading_token(s@.skip(from as int)) == s@.subrange(from as int, end as int)
                + leading_token(s@.skip(end as int)),
        decreases n - end,
    {
        proof {
            assert(s@.skip(end as int)[0] == s@[end as int]);
            assert(s@.skip(end as int).skip(1) =~= s@.skip(end + 1));
            assert(s@.subrange(from as int, end as int) + (seq![s@[end as int]]
                + leading_token(s@.skip(end + 1))) =~= s@.subrange(from as int, end + 1)
                + leading_token(s@.skip(end + 1)));
        }
        end = end + 1;
    }
    proof {
        if end < n {
            assert(s@.skip(end as int)[0] == s@[end as int]);
            assert(leading_token(s@.skip(end as int)) =~= Seq::<char>::empty());
        } else {
            assert(s@.skip(end as int) =~= Seq::<char>::empty());
        }
        assert(leading_token(s@.skip(from as int)) =~= s@.subrange(from as int, end as int));
    }
    end
}

/// Extracts the second whitespace-separated token, empty when there is none.
pub fn second_token(s: &str) -> (r: String)
    ensures
        r@ == second_token_spec(s@),
{
    let lo1 = skip_spaces(s, 0);
    let e1 = token_end(s, lo1);
    let lo2 = skip_spaces(s, e1);
    let e2 = token_end(s, lo2);
    proof {
        assert(s@.skip(0) =~= s@);
        assert(s@.skip(lo1 as int).skip(e1 - lo1 as int) =~= s@.skip(e1 as int));
    }
    s.substring_char(lo2, e2).to_owned()
}

/// Lexicographic order on character sequences, by code point: the order a
/// byte-wise comparison of UTF-8 strings induces.
pub open spec fn lex_leq(a: Seq<char>, b: Seq<char>) -> bool
    decreases a.len(),
{
    if a.len() == 0 {
        true
    } else if b.len() == 0 {
        false
    } else if a[0] != b[0] {
        (a[0] as int) < (b[0] as int)
    } else {
        lex_leq(a.skip(1), b.skip(1))
    }
}

/// Any two sequences are lexicographically comparable.
pub proof fn lemma_lex_leq_total(a: Seq<char>, b: Seq<char>)
    ensures
        lex_leq(a, b) || lex_leq(b, a),
    decreases a.len(),
{
    if a.len() > 0 && b.len() > 0 && a[0] == b[0] {
        lemma_lex_leq_total(a.skip(1), b.skip(1));
    }
}

/// Lexicographic order is transitive.
pub proof fn lemma_lex_leq_trans(a: Seq<char>, b: Seq<char>, c: Seq<char>)
    requires
        lex_leq(a, b),
        lex_leq(b, c),
    ensures
        lex_leq(a, c),
    decreases a.len(),
{
    if a.len() > 0 && b.len() > 0 && c.len() > 0 && a[0] == b[0] && b[0] == c[0] {
        lemma_lex_leq_trans(a.skip(1), b.skip(1), c.skip(1));
    }
}

/// Compares two strings lexicographically by code point.
pub fn str_lex_leq(a: &str, b: &str) -> (r: bool)
    ensures
        r == lex_leq(a@, b@),
{
    let na = a.unicode_len();
    let nb = b.unicode_len();
    let mut i: usize = 0;
    proof {
        assert(a@.skip(0) =~= a@);
        assert(b@.skip(0) =~= b@);
    }
    while i < na && i < nb
        invariant
            na == a@.len(),
            nb == b@.len(),
            i <= na,
            i <= nb,
            lex_leq(a@, b@) == lex_leq(a@.skip(i as int), b@.skip(i as int)),
            forall|j: int| 0 <= j < i ==> a@[j] == b@[j],
        decreases na - i,
    {
        let ca = a.get_char(i);
        let cb = b.get_char(i);
        proof {
            assert(a@.skip(i as int)[0] == a@[i as int]);
            assert(b@.skip(i as int)[0] == b@[i as int]);
            assert(a@.skip(i as int).skip(1) =~= a@.skip(i + 1));
            assert(b@.skip(i as int).skip(1) =~= b@.skip(i + 1));
        }
        if ca != cb {
            return (ca as u32) < (cb as u32);
        }
        i = i + 1;
    }
    proof {
        if i >= na {
            assert(a@.skip(i as int) =~= Seq::<char>::empty());
        } else {
            assert(b@.skip(i as int) =~= Seq::<char>::empty());
            assert(a@.skip(i as int).len() > 0);
        }
    }
    na <= nb
}

/// A decimal digit.
pub open spec fn is_digit(c: char) -> bool {
    '0' <= c && c <= '9'
}

/// Numeric value of one digit.
pub open spec fn digit_val(c: char) -> int {
    c as int - '0' as int
}

/// Every character of `s` is a decimal digit.
pub open spec fn all_digits(s: Seq<char>) -> bool {
    forall|i: int| 0 <= i < s.len() ==> is_digit(#[trigger] s[i])
}

/// The number a sequence of decimal digits denotes, most significant first.
pub open spec fn digits_value(s: Seq<char>) -> int
    decreases s.len(),
{
    if s.len() == 0 {
        0
    } else {
        10 * digits_value(s.drop_last()) + digit_val(s.last())
    }
}

/// A digit string never denotes a negative number.
pub proof fn lemma_digits_value_nonneg(s: Seq<char>)
    requires
        all_digits(s),
    ensures
        digits_value(s) >= 0,
    decreases s.len(),
{
    if s.len() > 0 {
        lemma_digits_value_nonneg(s.drop_last());
    }
}

/// Extending a digit string never shrinks its value.
pub proof fn lemma_digits_value_take_le(s: Seq<char>, i: int)
    requires
        all_digits(s),
        0 <= i <= s.len(),
    ensures
        digits_value(s.take(i)) <= digits_value(s),
    decreases s.len() - i,
{
    if i < s.len() {
        lemma_digits_value_take_le(s, i + 1);
        assert(s.take(i + 1).drop_last() =~= s.take(i));
        lemma_digits_value_nonneg(s.take(i));
    } else {
        assert(s.take(i) =~= s);
    }
}

/// Parses a non-empty, all-digit string as a non-negative number. Rejects —
/// and rejects only — the empty string, any non-digit character, and a value
/// over `i64::MAX`.
pub fn parse_i64_digits(s: &str) -> (r: Option<i64>)
    ensures
        r is Some <==> s@.len() > 0 && all_digits(s@) && digits_value(s@) <= i64::MAX,
        r matches Some(v) ==> v == digits_value(s@),
{
    let n = s.unicode_len();
    if n == 0 {
        return None;
    }
    let mut acc: i64 = 0;
    let mut i: usize = 0;
    while i < n
        invariant
            n == s@.len(),
            i <= n,
            all_digits(s@.take(i as int)),
            acc == digits_value(s@.take(i as int)),
            0 <= acc,
        decreases n - i,
    {
        let c = s.get_char(i);
        if c < '0' || c > '9' {
            proof {
                assert(!is_digit(s@[i as int]));
            }
            return None;
        }
        let d = (c as u32 - '0' as u32) as u64;
        let au = acc as u64;
        let room = (i64::MAX as u64 - d) / 10;
        proof {
            assert(s@.take(i + 1).drop_last() =~= s@.take(i as int));
            assert(digits_value(s@.take(i + 1)) == 10 * acc + d);
            vstd::arithmetic::div_mod::lemma_fundamental_div_mod(
                i64::MAX as u64 - d,
                10,
            );
        }
        if au > room {
            proof {
                assert(digits_value(s@.take(i + 1)) > i64::MAX);
                if all_digits(s@) {
                    lemma_digits_value_take_le(s@, i + 1);
                }
            }
            return None;
        }
        acc = acc * 10 + (d as i64);
        i = i + 1;
    }
    proof {
        assert(s@.take(n as int) =~= s@);
    }
    Some(acc)
}

} // verus!
