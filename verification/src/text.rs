//! Small verified text utilities: character classes, trimming, decimal and
//! hex rendering, and equality helpers over `&str` views.
//!
//! Trimming here removes the blank characters that actually occur in
//! descriptor text (space, tab, carriage return, line feed).

use vstd::prelude::*;

verus! {

/// Relies on String::push: appends exactly the one character.
#[verifier::external_body]
pub fn push_char(s: &mut String, c: char)
    ensures
        final(s)@ == old(s)@.push(c),
{
    s.push(c);
}

/// Blank characters removed by trimming.
pub open spec fn is_blank(c: char) -> bool {
    c == ' ' || c == '\t' || c == '\n' || c == '\r'
}

/// Check one character for blankness.
pub fn is_blank_char(c: char) -> (r: bool)
    ensures
        r == is_blank(c),
{
    c == ' ' || c == '\t' || c == '\n' || c == '\r'
}

/// The suffix of `s` left after removing leading blanks.
pub open spec fn trimmed_start(s: Seq<char>) -> Seq<char>
    decreases s.len(),
{
    if s.len() > 0 && is_blank(s[0]) {
        trimmed_start(s.drop_first())
    } else {
        s
    }
}

/// The prefix of `s` left after removing trailing blanks.
pub open spec fn trimmed_end(s: Seq<char>) -> Seq<char>
    decreases s.len(),
{
    if s.len() > 0 && is_blank(s.last()) {
        trimmed_end(s.drop_last())
    } else {
        s
    }
}

/// `s` with both leading and trailing blanks removed.
pub open spec fn trimmed(s: Seq<char>) -> Seq<char> {
    trimmed_end(trimmed_start(s))
}

proof fn lemma_trimmed_start_skip(s: Seq<char>, i: int)
    requires
        0 <= i <= s.len(),
        forall|j: int| 0 <= j < i ==> is_blank(s[j]),
    ensures
        trimmed_start(s) == trimmed_start(s.skip(i)),
    decreases i,
{
    if i == 0 {
        assert(s.skip(0) =~= s);
    } else {
        assert(s.len() > 0 && is_blank(s[0]));
        assert(s.drop_first() =~= s.skip(1));
        assert(trimmed_start(s) == trimmed_start(s.skip(1)));
        assert forall|j: int| 0 <= j < i - 1 implies is_blank(s.skip(1)[j]) by {
            assert(s.skip(1)[j] == s[j + 1]);
        }
        lemma_trimmed_start_skip(s.skip(1), i - 1);
        assert(s.skip(1).skip(i - 1) =~= s.skip(i));
    }
}

proof fn lemma_trimmed_start_fixed(s: Seq<char>)
    requires
        s.len() == 0 || !is_blank(s[0]),
    ensures
        trimmed_start(s) == s,
{
}

proof fn lemma_trimmed_end_take(s: Seq<char>, i: int)
    requires
        0 <= i <= s.len(),
        forall|j: int| i <= j < s.len() ==> is_blank(s[j]),
    ensures
        trimmed_end(s) == trimmed_end(s.take(i)),
    decreases s.len() - i,
{
    if i < s.len() {
        assert(is_blank(s.last()));
        assert(s.drop_last() =~= s.take(s.len() - 1));
        lemma_trimmed_end_take(s.take(s.len() - 1), i);
        assert(s.take(s.len() - 1).take(i) =~= s.take(i));
    } else {
        assert(s.take(i) =~= s);
    }
}

/// Trim leading and trailing blanks from a string slice.
#[verifier::loop_isolation(false)]
pub fn trim(s: &str) -> (r: &str)
    ensures
        r@ == trimmed(s@),
{
    let n = s.unicode_len();
    let mut start: usize = 0;
    while start < n && is_blank_char(s.get_char(start))
        invariant
            0 <= start <= n,
            forall|j: int| 0 <= j < start ==> is_blank(s@[j]),
        decreases n - start,
    {
        start = start + 1;
    }
    let mut end: usize = n;
    while end > start && is_blank_char(s.get_char(end - 1))
        invariant
            start <= end <= n,
            forall|j: int| end <= j < n ==> is_blank(s@[j]),
        decreases end,
    {
        end = end - 1;
    }
    let r = s.substring_char(start, end);
    proof {
        lemma_trimmed_start_skip(s@, start as int);
        if end == start {
            // everything from `start` on is blank, or the slice is empty
            lemma_trimmed_end_take(s@.skip(start as int), 0);
            assert(s@.skip(start as int).take(0) =~= Seq::<char>::empty());
            assert(r@ =~= Seq::<char>::empty());
        } else {
            assert(!is_blank(s@[start as int]));
            assert(s@.skip(start as int)[0] == s@[start as int]);
            lemma_trimmed_start_fixed(s@.skip(start as int));
            lemma_trimmed_end_take(s@.skip(start as int), end - start);
            assert(s@.skip(start as int).take(end - start) =~= s@.subrange(
                start as int,
                end as int,
            ));
            assert(!is_blank(s@[end - 1]));
            let t = s@.subrange(start as int, end as int);
            assert(t.last() == s@[end - 1]);
            lemma_trimmed_end_fixed(t);
        }
    }
    r
}

proof fn lemma_trimmed_end_fixed(s: Seq<char>)
    requires
        s.len() == 0 || !is_blank(s.last()),
    ensures
        trimmed_end(s) == s,
{
}

/// Trim only leading blanks from a string slice.
#[verifier::loop_isolation(false)]
pub fn trim_start(s: &str) -> (r: &str)
    ensures
        r@ == trimmed_start(s@),
{
    let n = s.unicode_len();
    let mut start: usize = 0;
    while start < n && is_blank_char(s.get_char(start))
        invariant
            0 <= start <= n,
            forall|j: int| 0 <= j < start ==> is_blank(s@[j]),
        decreases n - start,
    {
        start = start + 1;
    }
    let r = s.substring_char(start, n);
    proof {
        lemma_trimmed_start_skip(s@, start as int);
        assert(r@ =~= s@.skip(start as int));
        if start < n {
            assert(!is_blank(s@[start as int]));
            assert(s@.skip(start as int)[0] == s@[start as int]);
        }
        lemma_trimmed_start_fixed(s@.skip(start as int));
    }
    r
}

/// Trim only trailing blanks from a string slice.
#[verifier::loop_isolation(false)]
pub fn trim_end(s: &str) -> (r: &str)
    ensures
        r@ == trimmed_end(s@),
{
    let n = s.unicode_len();
    let mut end: usize = n;
    while end > 0 && is_blank_char(s.get_char(end - 1))
        invariant
            0 <= end <= n,
            forall|j: int| end <= j < n ==> is_blank(s@[j]),
        decreases end,
    {
        end = end - 1;
    }
    let r = s.substring_char(0, end);
    proof {
        lemma_trimmed_end_take(s@, end as int);
        assert(r@ =~= s@.take(end as int));
        if end > 0 {
            assert(!is_blank(s@[end - 1]));
            assert(s@.take(end as int).last() == s@[end - 1]);
            lemma_trimmed_end_fixed(s@.take(end as int));
        } else {
            assert(s@.take(0) =~= Seq::<char>::empty());
            lemma_trimmed_end_fixed(s@.take(0));
        }
    }
    r
}

/// Whether the trimmed string is empty, without building it.
pub fn trim_is_empty(s: &str) -> (r: bool)
    ensures
        r == (trimmed(s@).len() == 0),
{
    let t = trim(s);
    t.unicode_len() == 0
}

/// Character-wise equality of two string slices.
#[verifier::loop_isolation(false)]
pub fn str_eq(a: &str, b: &str) -> (r: bool)
    ensures
        r == (a@ == b@),
{
    let na = a.unicode_len();
    let nb = b.unicode_len();
    if na != nb {
        proof {
            assert(a@ != b@);
        }
        return false;
    }
    let mut i: usize = 0;
    while i < na
        invariant
            0 <= i <= na,
            forall|j: int| 0 <= j < i ==> a@[j] == b@[j],
        decreases na - i,
    {
        if a.get_char(i) != b.get_char(i) {
            proof {
                assert(a@[i as int] != b@[i as int]);
            }
            return false;
        }
        i = i + 1;
    }
    proof {
        assert(a@ =~= b@);
    }
    true
}

/// Equality of an optional string against a slice.
pub fn opt_str_eq(a: &Option<String>, b: &str) -> (r: bool)
    ensures
        r == (a is Some && a->Some_0@ == b@),
{
    match a {
        Some(s) => str_eq(s.as_str(), b),
        None => false,
    }
}

/// Position of the first occurrence of `c`, if any.
pub open spec fn char_index(s: Seq<char>, c: char) -> Option<int>
    decreases s.len(),
{
    if s.len() == 0 {
        None
    } else if s[0] == c {
        Some(0int)
    } else {
        match char_index(s.drop_first(), c) {
            Some(i) => Some(i + 1),
            None => None,
        }
    }
}

pub proof fn lemma_char_index_at(s: Seq<char>, c: char, i: int)
    requires
        0 <= i < s.len(),
        s[i] == c,
        forall|j: int| 0 <= j < i ==> s[j] != c,
    ensures
        char_index(s, c) == Some(i),
    decreases i,
{
    if i > 0 {
        assert(s.drop_first() =~= s.skip(1));
        assert forall|j: int| 0 <= j < i - 1 implies s.skip(1)[j] != c by {
            assert(s.skip(1)[j] == s[j + 1]);
        }
        assert(s.skip(1)[i - 1] == s[i]);
        lemma_char_index_at(s.skip(1), c, i - 1);
    }
}

pub proof fn lemma_char_index_none(s: Seq<char>, c: char)
    requires
        forall|j: int| 0 <= j < s.len() ==> s[j] != c,
    ensures
        char_index(s, c) is None,
    decreases s.len(),
{
    if s.len() > 0 {
        assert(s.drop_first() =~= s.skip(1));
        assert forall|j: int| 0 <= j < s.skip(1).len() implies s.skip(1)[j] != c by {
            assert(s.skip(1)[j] == s[j + 1]);
        }
        lemma_char_index_none(s.skip(1), c);
    }
}

/// First position of `c` in `s`, if any.
#[verifier::loop_isolation(false)]
pub fn find_char(s: &str, c: char) -> (r: Option<usize>)
    ensures
        match r {
            Some(i) => 0 <= i < s@.len() && char_index(s@, c) == Some(i as int),
            None => char_index(s@, c) is None,
        },
{
    let n = s.unicode_len();
    let mut i: usize = 0;
    while i < n
        invariant
            0 <= i <= n,
            forall|j: int| 0 <= j < i ==> s@[j] != c,
        decreases n - i,
    {
        if s.get_char(i) == c {
            proof {
                lemma_char_index_at(s@, c, i as int);
            }
            return Some(i);
        }
        i = i + 1;
    }
    proof {
        lemma_char_index_none(s@, c);
    }
    None
}

/// Position of the last occurrence of `c`, if any.
pub open spec fn char_rindex(s: Seq<char>, c: char) -> Option<int>
    decreases s.len(),
{
    if s.len() == 0 {
        None
    } else if s.last() == c {
        Some(s.len() - 1)
    } else {
        char_rindex(s.drop_last(), c)
    }
}

/// Last position of `c` in `s`, if any.
#[verifier::loop_isolation(false)]
pub fn rfind_char(s: &str, c: char) -> (r: Option<usize>)
    ensures
        match r {
            Some(i) => 0 <= i < s@.len() && char_rindex(s@, c) == Some(i as int),
            None => char_rindex(s@, c) is None,
        },
{
    let n = s.unicode_len();
    let mut i: usize = n;
    proof {
        assert(s@.take(n as int) =~= s@);
    }
    while i > 0
        invariant
            0 <= i <= n,
            char_rindex(s@, c) == char_rindex(s@.take(i as int), c),
        decreases i,
    {
        proof {
            assert(s@.take(i as int).last() == s@[i - 1]);
            assert(s@.take(i as int).drop_last() =~= s@.take(i - 1));
        }
        if s.get_char(i - 1) == c {
            return Some(i - 1);
        }
        i = i - 1;
    }
    proof {
        assert(s@.take(0) =~= Seq::<char>::empty());
    }
    None
}

/// Whether `p` is a prefix of `s`.
#[verifier::loop_isolation(false)]
pub fn starts_with(s: &str, p: &str) -> (r: bool)
    ensures
        r == p@.is_prefix_of(s@),
{
    let np = p.unicode_len();
    let ns = s.unicode_len();
    if np > ns {
        proof {
            assert(!p@.is_prefix_of(s@));
        }
        return false;
    }
    let mut i: usize = 0;
    while i < np
        invariant
            0 <= i <= np,
            np <= ns,
            forall|j: int| 0 <= j < i ==> s@[j] == p@[j],
        decreases np - i,
    {
        if s.get_char(i) != p.get_char(i) {
            proof {
                assert(s@[i as int] != p@[i as int]);
                assert(!p@.is_prefix_of(s@));
            }
            return false;
        }
        i = i + 1;
    }
    proof {
        assert(p@ =~= s@.take(np as int));
    }
    true
}

/// The decimal digit characters.
pub open spec fn digit_char(d: int) -> char {
    if d == 0 { '0' }
    else if d == 1 { '1' }
    else if d == 2 { '2' }
    else if d == 3 { '3' }
    else if d == 4 { '4' }
    else if d == 5 { '5' }
    else if d == 6 { '6' }
    else if d == 7 { '7' }
    else if d == 8 { '8' }
    else { '9' }
}

fn digit_char_exec(d: u32) -> (c: char)
    requires
        d < 10,
    ensures
        c == digit_char(d as int),
{
    if d == 0 { '0' }
    else if d == 1 { '1' }
    else if d == 2 { '2' }
    else if d == 3 { '3' }
    else if d == 4 { '4' }
    else if d == 5 { '5' }
    else if d == 6 { '6' }
    else if d == 7 { '7' }
    else if d == 8 { '8' }
    else { '9' }
}

/// The decimal rendering of a nonnegative number.
pub open spec fn spec_dec(n: int) -> Seq<char>
    decreases n,
{
    if n < 10 {
        seq![digit_char(n)]
    } else {
        spec_dec(n / 10) + seq![digit_char(n % 10)]
    }
}

/// Render a number in decimal.
pub fn dec_u32(n: u32) -> (s: String)
    ensures
        s@ == spec_dec(n as int),
    decreases n,
{
    if n < 10 {
        let mut s = String::new();
        push_char(&mut s, digit_char_exec(n));
        proof {
            assert(s@ =~= spec_dec(n as int));
        }
        s
    } else {
        let mut s = dec_u32(n / 10);
        push_char(&mut s, digit_char_exec(n % 10));
        proof {
            assert(s@ =~= spec_dec(n as int));
        }
        s
    }
}

/// The lowercase hexadecimal digit characters.
pub open spec fn hex_char(d: int) -> char {
    if d == 0 { '0' }
    else if d == 1 { '1' }
    else if d == 2 { '2' }
    else if d == 3 { '3' }
    else if d == 4 { '4' }
    else if d == 5 { '5' }
    else if d == 6 { '6' }
    else if d == 7 { '7' }
    else if d == 8 { '8' }
    else if d == 9 { '9' }
    else if d == 10 { 'a' }
    else if d == 11 { 'b' }
    else if d == 12 { 'c' }
    else if d == 13 { 'd' }
    else if d == 14 { 'e' }
    else { 'f' }
}

fn hex_char_exec(d: u8) -> (c: char)
    requires
        d < 16,
    ensures
        c == hex_char(d as int),
{
    if d == 0 { '0' }
    else if d == 1 { '1' }
    else if d == 2 { '2' }
    else if d == 3 { '3' }
    else if d == 4 { '4' }
    else if d == 5 { '5' }
    else if d == 6 { '6' }
    else if d == 7 { '7' }
    else if d == 8 { '8' }
    else if d == 9 { '9' }
    else if d == 10 { 'a' }
    else if d == 11 { 'b' }
    else if d == 12 { 'c' }
    else if d == 13 { 'd' }
    else if d == 14 { 'e' }
    else { 'f' }
}

/// The escaped form of one byte in a data initializer: `\` then two hex
/// digits.
pub open spec fn spec_byte_escape(b: u8) -> Seq<char> {
    seq!['\\', hex_char(b as int / 16), hex_char(b as int % 16)]
}

/// Append the escaped form of one byte.
pub fn push_byte_escape(s: &mut String, b: u8)
    ensures
        final(s)@ == old(s)@ + spec_byte_escape(b),
{
    push_char(s, '\\');
    push_char(s, hex_char_exec(b / 16));
    push_char(s, hex_char_exec(b % 16));
    proof {
        assert(s@ =~= old(s)@ + spec_byte_escape(b));
    }
}

/// Characters a path segment may not carry: the reserved punctuation of
/// common file systems, the separator, and control characters.
pub open spec fn is_reserved_path_char(c: char) -> bool {
    c == ':' || c == '<' || c == '>' || c == '"' || c == '\\' || c == '|' || c == '?' || c == '*'
        || c == '/' || c as u32 <= 31 || (127 <= c as u32 <= 159)
}

/// A sanitized path segment: every reserved character replaced by an
/// underscore, the empty segment replaced by a bare underscore.
pub open spec fn spec_sanitized_segment(s: Seq<char>) -> Seq<char> {
    if s.len() == 0 {
        "_"@
    } else {
        s.map_values(|c: char| if is_reserved_path_char(c) { '_' } else { c })
    }
}

/// Sanitize a string for use as a directory name segment.
#[verifier::loop_isolation(false)]
pub fn sanitize_path_segment(s: &str) -> (r: String)
    ensures
        r@ == spec_sanitized_segment(s@),
{
    let n = s.unicode_len();
    if n == 0 {
        proof {
            reveal_strlit("_");
        }
        let mut out = String::new();
        push_char(&mut out, '_');
        proof {
            assert(out@ =~= "_"@);
        }
        return out;
    }
    let mut out = String::new();
    let mut i: usize = 0;
    proof {
        assert(out@ =~= s@.take(0).map_values(
            |c: char| if is_reserved_path_char(c) { '_' } else { c },
        ));
    }
    while i < n
        invariant
            0 <= i <= n,
            out@ == s@.take(i as int).map_values(
                |c: char| if is_reserved_path_char(c) { '_' } else { c },
            ),
        decreases n - i,
    {
        let c = s.get_char(i);
        let cu = c as u32;
        let reserved = c == ':' || c == '<' || c == '>' || c == '"' || c == '\\' || c == '|' || c
            == '?' || c == '*' || c == '/' || cu <= 31 || (127 <= cu && cu <= 159);
        if reserved {
            push_char(&mut out, '_');
        } else {
            push_char(&mut out, c);
        }
        proof {
            assert(out@ =~= s@.take(i + 1).map_values(
                |c: char| if is_reserved_path_char(c) { '_' } else { c },
            ));
        }
        i = i + 1;
    }
    proof {
        assert(s@.take(n as int) =~= s@);
    }
    out
}

} // verus!
