//! Verified text helpers: prefix stripping, whitespace trimming, HTML tag
//! removal, decimal rendering with zero padding, and URL file-extension
//! extraction.  Every executable function is proved against a small spec
//! function over sequences of characters.

use vstd::prelude::*;

verus! {

use vstd::string::StrSliceExecFns;
use vstd::string::StringExecFns;

// ---------------------------------------------------------------------------
// Stripping a repeated leading character
// ---------------------------------------------------------------------------

/// The sequence with every copy of `c` removed from its front.
pub open spec fn spec_strip_leading(s: Seq<char>, c: char) -> Seq<char>
    decreases s.len(),
{
    if s.len() > 0 && s[0] == c {
        spec_strip_leading(s.drop_first(), c)
    } else {
        s
    }
}

proof fn lemma_strip_leading_at(s: Seq<char>, c: char, i: int)
    requires
        0 <= i <= s.len(),
        forall|j: int| 0 <= j < i ==> s[j] == c,
        i == s.len() || s[i] != c,
    ensures
        spec_strip_leading(s, c) == s.subrange(i, s.len() as int),
    decreases i,
{
    if i == 0 {
        assert(spec_strip_leading(s, c) =~= s.subrange(0, s.len() as int));
    } else {
        assert(s.len() > 0 && s[0] == c);
        let t = s.drop_first();
        assert(forall|j: int| 0 <= j < i - 1 ==> t[j] == c);
        lemma_strip_leading_at(t, c, i - 1);
        assert(t.subrange(i - 1, t.len() as int) =~= s.subrange(i, s.len() as int));
    }
}

/// Remove every copy of `c` from the front of `s`.
pub fn strip_leading_char(s: &str, c: char) -> (r: String)
    ensures
        r@ == spec_strip_leading(s@, c),
{
    let n = s.unicode_len();
    let mut i: usize = 0;
    while i < n && s.get_char(i) == c
        invariant
            n == s@.len(),
            0 <= i <= n,
            forall|j: int| 0 <= j < i ==> s@[j] == c,
        decreases n - i,
    {
        i = i + 1;
    }
    proof {
        lemma_strip_leading_at(s@, c, i as int);
    }
    let rest = s.substring_char(i, n);
    rest.to_owned()
}

// ---------------------------------------------------------------------------
// Whitespace trimming
// ---------------------------------------------------------------------------

/// The whitespace characters this crate trims from text.
pub open spec fn spec_is_space(c: char) -> bool {
    c == ' ' || c == '\t' || c == '\n' || c == '\r'
}

fn is_space(c: char) -> (r: bool)
    ensures
        r == spec_is_space(c),
{
    c == ' ' || c == '\t' || c == '\n' || c == '\r'
}

/// The sequence with leading whitespace removed.
pub open spec fn spec_trim_start(s: Seq<char>) -> Seq<char>
    decreases s.len(),
{
    if s.len() > 0 && spec_is_space(s[0]) {
        spec_trim_start(s.drop_first())
    } else {
        s
    }
}

/// The sequence with trailing whitespace removed.
pub open spec fn spec_trim_end(s: Seq<char>) -> Seq<char>
    decreases s.len(),
{
    if s.len() > 0 && spec_is_space(s[s.len() - 1]) {
        spec_trim_end(s.drop_last())
    } else {
        s
    }
}

/// The sequence with whitespace removed from both ends.
pub open spec fn spec_trimmed(s: Seq<char>) -> Seq<char> {
    spec_trim_end(spec_trim_start(s))
}

proof fn lemma_trim_start_at(s: Seq<char>, i: int)
    requires
        0 <= i <= s.len(),
        forall|j: int| 0 <= j < i ==> spec_is_space(#[trigger] s[j]),
        i == s.len() || !spec_is_space(s[i]),
    ensures
        spec_trim_start(s) == s.subrange(i, s.len() as int),
    decreases i,
{
    if i == 0 {
        assert(spec_trim_start(s) =~= s.subrange(0, s.len() as int));
    } else {
        let t = s.drop_first();
        assert(forall|j: int| 0 <= j < i - 1 ==> spec_is_space(#[trigger] t[j]));
        lemma_trim_start_at(t, i - 1);
        assert(t.subrange(i - 1, t.len() as int) =~= s.subrange(i, s.len() as int));
    }
}

proof fn lemma_trim_end_at(s: Seq<char>, i: int)
    requires
        0 <= i <= s.len(),
        forall|j: int| i <= j < s.len() ==> spec_is_space(#[trigger] s[j]),
        i == 0 || !spec_is_space(s[i - 1]),
    ensures
        spec_trim_end(s) == s.subrange(0, i),
    decreases s.len() - i,
{
    if i == s.len() {
        assert(spec_trim_end(s) =~= s.subrange(0, i));
    } else {
        assert(spec_is_space(s[s.len() - 1]));
        let t = s.drop_last();
        assert(forall|j: int| i <= j < t.len() ==> spec_is_space(#[trigger] t[j]));
        lemma_trim_end_at(t, i);
        assert(t.subrange(0, i) =~= s.subrange(0, i));
    }
}

/// Remove whitespace from both ends of `s`.
pub fn trim_text(s: &str) -> (r: String)
    ensures
        r@ == spec_trimmed(s@),
{
    let n = s.unicode_len();
    let mut a: usize = 0;
    while a < n && is_space(s.get_char(a))
        invariant
            n == s@.len(),
            0 <= a <= n,
            forall|j: int| 0 <= j < a ==> spec_is_space(#[trigger] s@[j]),
        decreases n - a,
    {
        a = a + 1;
    }
    proof {
        lemma_trim_start_at(s@, a as int);
    }
    let mut b: usize = n;
    while b > a && is_space(s.get_char(b - 1))
        invariant
            n == s@.len(),
            a <= b <= n,
            a == n || !spec_is_space(s@[a as int]),
            forall|j: int| b <= j < n ==> spec_is_space(#[trigger] s@[j]),
        decreases b,
    {
        b = b - 1;
    }
    let r = s.substring_char(a, b);
    proof {
        let t = s@.subrange(a as int, n as int);
        assert(forall|j: int| b - a <= j < t.len() ==> spec_is_space(#[trigger] t[j]));
        assert(b > a ==> t[b - a - 1] == s@[b - 1]);
        lemma_trim_end_at(t, b - a);
        assert(t.subrange(0, b - a) =~= s@.subrange(a as int, b as int));
    }
    r.to_owned()
}

// ---------------------------------------------------------------------------
// HTML tag removal
// ---------------------------------------------------------------------------

/// Whether `c` occurs in `s`.
pub open spec fn spec_contains_char(s: Seq<char>, c: char) -> bool {
    exists|i: int| 0 <= i < s.len() && s[i] == c
}

/// Test whether `c` occurs in `s`.
pub fn contains_char(s: &str, c: char) -> (r: bool)
    ensures
        r == spec_contains_char(s@, c),
{
    let n = s.unicode_len();
    let mut i: usize = 0;
    while i < n
        invariant
            n == s@.len(),
            0 <= i <= n,
            forall|j: int| 0 <= j < i ==> s@[j] != c,
        decreases n - i,
    {
        if s.get_char(i) == c {
            return true;
        }
        i = i + 1;
    }
    false
}

/// The index of the first occurrence of `c` in `s` (meaningful only when
/// `spec_contains_char(s, c)` holds).
pub open spec fn spec_first_index_of(s: Seq<char>, c: char) -> int
    decreases s.len(),
{
    if s.len() == 0 {
        0
    } else if s[0] == c {
        0
    } else {
        1 + spec_first_index_of(s.drop_first(), c)
    }
}

proof fn lemma_first_index_bounds(s: Seq<char>, c: char)
    requires
        spec_contains_char(s, c),
    ensures
        0 <= spec_first_index_of(s, c) < s.len(),
        s[spec_first_index_of(s, c)] == c,
    decreases s.len(),
{
    if s.len() > 0 && s[0] != c {
        let t = s.drop_first();
        let i = choose|i: int| 0 <= i < s.len() && s[i] == c;
        assert(t[i - 1] == c);
        lemma_first_index_bounds(t, c);
    }
}

proof fn lemma_first_index_of(s: Seq<char>, c: char, i: int)
    requires
        0 <= i < s.len(),
        forall|j: int| 0 <= j < i ==> s[j] != c,
        s[i] == c,
    ensures
        spec_first_index_of(s, c) == i,
    decreases i,
{
    if i > 0 {
        let t = s.drop_first();
        assert(forall|j: int| 0 <= j < i - 1 ==> t[j] != c);
        lemma_first_index_of(t, c, i - 1);
    }
}

/// The text with every `<`...`>` run removed.  A `<` with no later `>`
/// starts no tag and is kept, as are all characters after it.
pub open spec fn spec_strip_tags(s: Seq<char>) -> Seq<char>
    decreases s.len(),
    via spec_strip_tags_decreases
{
    if s.len() == 0 {
        Seq::empty()
    } else if s[0] == '<' && spec_contains_char(s, '>') {
        spec_strip_tags(s.subrange(spec_first_index_of(s, '>') + 1, s.len() as int))
    } else {
        seq![s[0]] + spec_strip_tags(s.drop_first())
    }
}

#[via_fn]
proof fn spec_strip_tags_decreases(s: Seq<char>) {
    if s.len() > 0 && s[0] == '<' && spec_contains_char(s, '>') {
        lemma_first_index_bounds(s, '>');
    }
}

proof fn lemma_strip_tags_no_gt(s: Seq<char>)
    requires
        !spec_contains_char(s, '>'),
    ensures
        spec_strip_tags(s) == s,
    decreases s.len(),
{
    if s.len() > 0 {
        let t = s.drop_first();
        assert(!spec_contains_char(t, '>')) by {
            assert(forall|i: int| 0 <= i < t.len() ==> t[i] == s[i + 1]);
        }
        lemma_strip_tags_no_gt(t);
        assert(seq![s[0]] + t =~= s);
    }
}

/// Remove HTML tags from `html` and trim surrounding whitespace: the plain
/// text of a post body.
pub fn strip_html_tags(html: &str) -> (r: String)
    ensures
        r@ == spec_trimmed(spec_strip_tags(html@)),
{
    let n = html.unicode_len();
    let mut out = String::new();
    let mut i: usize = 0;
    proof {
        assert(html@.subrange(0, n as int) =~= html@);
    }
    while i < n
        invariant
            n == html@.len(),
            0 <= i <= n,
            spec_strip_tags(html@) == out@ + spec_strip_tags(
                html@.subrange(i as int, n as int),
            ),
        decreases n - i,
    {
        let c = html.get_char(i);
        let ghost rest = html@.subrange(i as int, n as int);
        if c == '<' {
            // scan for the matching '>'
            let mut j: usize = i + 1;
            while j < n && html.get_char(j) != '>'
                invariant
                    n == html@.len(),
                    i < j <= n,
                    forall|k: int| i < k < j ==> html@[k] != '>',
                decreases n - j,
            {
                j = j + 1;
            }
            let found = j < n;
            if found {
                proof {
                    assert(html@[j as int] == '>');
                    assert(rest[0] == '<');
                    assert(rest[j - i] == '>');
                    assert(forall|k: int| 0 <= k < j - i ==> rest[k] != '>');
                    lemma_first_index_of(rest, '>', j - i);
                    assert(spec_contains_char(rest, '>'));
                    assert(rest.subrange(j - i + 1, rest.len() as int) =~= html@.subrange(
                        j + 1,
                        n as int,
                    ));
                }
                i = j + 1;
            } else {
                // no closing '>': everything from here on is kept
                proof {
                    assert(forall|k: int| 0 <= k < rest.len() ==> rest[k] != '>') by {
                        assert(forall|k: int| i < k < n ==> html@[k] != '>');
                        assert(rest[0] == '<');
                    }
                    lemma_strip_tags_no_gt(rest);
                }
                let tail = html.substring_char(i, n);
                out.append(tail);
                i = n;
            }
        } else {
            proof {
                assert(rest[0] == c && c != '<');
                assert(rest.drop_first() =~= html@.subrange(i + 1, n as int));
                assert(html@.subrange(i as int, i + 1) =~= seq![c]);
            }
            let piece = html.substring_char(i, i + 1);
            out.append(piece);
            i = i + 1;
        }
    }
    proof {
        assert(html@.subrange(n as int, n as int) =~= Seq::<char>::empty());
        assert(spec_strip_tags(html@) =~= out@);
    }
    trim_text(out.as_str())
}

// ---------------------------------------------------------------------------
// Replacing '@' in a user query
// ---------------------------------------------------------------------------

/// The sequence with every `@` replaced by `_at_`.
pub open spec fn spec_at_replaced(s: Seq<char>) -> Seq<char>
    decreases s.len(),
{
    if s.len() == 0 {
        Seq::empty()
    } else if s[0] == '@' {
        seq!['_', 'a', 't', '_'] + spec_at_replaced(s.drop_first())
    } else {
        seq![s[0]] + spec_at_replaced(s.drop_first())
    }
}

proof fn lemma_at_replaced_concat(a: Seq<char>, b: Seq<char>)
    ensures
        spec_at_replaced(a + b) == spec_at_replaced(a) + spec_at_replaced(b),
    decreases a.len(),
{
    if a.len() == 0 {
        assert(a + b =~= b);
        assert(spec_at_replaced(a) =~= Seq::<char>::empty());
        assert(spec_at_replaced(a) + spec_at_replaced(b) =~= spec_at_replaced(b));
    } else {
        assert((a + b).drop_first() =~= a.drop_first() + b);
        lemma_at_replaced_concat(a.drop_first(), b);
        if a[0] == '@' {
            assert(spec_at_replaced(a + b) =~= seq!['_', 'a', 't', '_'] + (spec_at_replaced(
                a.drop_first(),
            ) + spec_at_replaced(b)));
            assert(spec_at_replaced(a) + spec_at_replaced(b) =~= seq!['_', 'a', 't', '_']
                + (spec_at_replaced(a.drop_first()) + spec_at_replaced(b)));
        } else {
            assert(spec_at_replaced(a + b) =~= seq![a[0]] + (spec_at_replaced(a.drop_first())
                + spec_at_replaced(b)));
            assert(spec_at_replaced(a) + spec_at_replaced(b) =~= seq![a[0]] + (spec_at_replaced(
                a.drop_first(),
            ) + spec_at_replaced(b)));
        }
    }
}

/// Replace every `@` in `s` with `_at_`.
pub fn replace_at_marks(s: &str) -> (r: String)
    ensures
        r@ == spec_at_replaced(s@),
{
    let n = s.unicode_len();
    let mut out = String::new();
    let mut i: usize = 0;
    proof {
        assert(s@.subrange(0, 0) =~= Seq::<char>::empty());
        assert(spec_at_replaced(Seq::<char>::empty()) =~= Seq::<char>::empty());
    }
    while i < n
        invariant
            n == s@.len(),
            0 <= i <= n,
            out@ == spec_at_replaced(s@.subrange(0, i as int)),
        decreases n - i,
    {
        let c = s.get_char(i);
        proof {
            assert(s@.subrange(0, i as int) + seq![c] =~= s@.subrange(0, i + 1));
            lemma_at_replaced_concat(s@.subrange(0, i as int), seq![c]);
            assert(seq![c].drop_first() =~= Seq::<char>::empty());
            assert(spec_at_replaced(Seq::<char>::empty()) =~= Seq::<char>::empty());
        }
        if c == '@' {
            out.append("_at_");
            proof {
                reveal_strlit("_at_");
                assert(spec_at_replaced(seq![c]) =~= seq!['_', 'a', 't', '_']
                    + Seq::<char>::empty());
                assert(spec_at_replaced(seq![c]) =~= "_at_"@);
            }
        } else {
            let piece = s.substring_char(i, i + 1);
            proof {
                assert(s@.subrange(i as int, i + 1) =~= seq![c]);
                assert(spec_at_replaced(seq![c]) =~= seq![c] + Seq::<char>::empty());
                assert(spec_at_replaced(seq![c]) =~= seq![c]);
            }
            out.append(piece);
        }
        i = i + 1;
    }
    proof {
        assert(s@.subrange(0, n as int) =~= s@);
    }
    out
}

// ---------------------------------------------------------------------------
// Decimal rendering
// ---------------------------------------------------------------------------

/// The decimal digit character for `d` (meaningful for 0 <= d <= 9).
pub open spec fn spec_digit_char(d: int) -> char {
    if d == 0 {
        '0'
    } else if d == 1 {
        '1'
    } else if d == 2 {
        '2'
    } else if d == 3 {
        '3'
    } else if d == 4 {
        '4'
    } else if d == 5 {
        '5'
    } else if d == 6 {
        '6'
    } else if d == 7 {
        '7'
    } else if d == 8 {
        '8'
    } else {
        '9'
    }
}

/// The decimal rendering of `n`, without sign or padding.
pub open spec fn spec_decimal(n: int) -> Seq<char>
    decreases n,
{
    if n <= 0 {
        seq!['0']
    } else if n < 10 {
        seq![spec_digit_char(n)]
    } else {
        spec_decimal(n / 10) + seq![spec_digit_char(n % 10)]
    }
}

fn digit_str(d: u64) -> (r: &'static str)
    requires
        d <= 9,
    ensures
        r@ == seq![spec_digit_char(d as int)],
{
    proof {
        reveal_strlit("0");
        reveal_strlit("1");
        reveal_strlit("2");
        reveal_strlit("3");
        reveal_strlit("4");
        reveal_strlit("5");
        reveal_strlit("6");
        reveal_strlit("7");
        reveal_strlit("8");
        reveal_strlit("9");
    }
    if d == 0 {
        "0"
    } else if d == 1 {
        "1"
    } else if d == 2 {
        "2"
    } else if d == 3 {
        "3"
    } else if d == 4 {
        "4"
    } else if d == 5 {
        "5"
    } else if d == 6 {
        "6"
    } else if d == 7 {
        "7"
    } else if d == 8 {
        "8"
    } else {
        "9"
    }
}

/// Render `n` in decimal.
pub fn u64_to_string(n: u64) -> (r: String)
    ensures
        r@ == spec_decimal(n as int),
    decreases n,
{
    if n < 10 {
        let mut out = String::new();
        out.append(digit_str(n));
        out
    } else {
        let mut out = u64_to_string(n / 10);
        out.append(digit_str(n % 10));
        out
    }
}

/// The decimal rendering of `n`, left-padded with zeroes to at least
/// `width` characters.
pub open spec fn spec_padded_decimal(n: int, width: int) -> Seq<char>
    decreases width - spec_decimal(n).len(),
{
    if spec_decimal(n).len() >= width {
        spec_decimal(n)
    } else {
        seq!['0'] + spec_padded_decimal(n, width - 1)
    }
}

/// Render `n` in decimal, left-padded with zeroes to at least `width`
/// characters.
pub fn u64_to_padded_string(n: u64, width: usize) -> (r: String)
    ensures
        r@ == spec_padded_decimal(n as int, width as int),
{
    let digits = u64_to_string(n);
    let len = digits.as_str().unicode_len();
    if len >= width {
        proof {
            assert(spec_padded_decimal(n as int, width as int) == spec_decimal(n as int));
        }
        digits
    } else {
        let mut out = String::new();
        let mut pad: usize = width - len;
        proof {
            reveal_strlit("0");
        }
        while pad > 0
            invariant
                pad <= width - len,
                len == spec_decimal(n as int).len(),
                "0"@ == seq!['0'],
                spec_padded_decimal(n as int, width as int) == out@ + spec_padded_decimal(
                    n as int,
                    (len + pad) as int,
                ),
            decreases pad,
        {
            out.append("0");
            pad = pad - 1;
            proof {
                assert(spec_padded_decimal(n as int, (len + pad + 1) as int) == seq!['0']
                    + spec_padded_decimal(n as int, (len + pad) as int));
                assert(out@ + spec_padded_decimal(n as int, (len + pad) as int)
                    =~= spec_padded_decimal(n as int, width as int));
            }
        }
        out.append(digits.as_str());
        proof {
            assert(spec_padded_decimal(n as int, len as int) == spec_decimal(n as int));
            assert(out@ =~= spec_padded_decimal(n as int, width as int));
        }
        out
    }
}

// ---------------------------------------------------------------------------
// Prefix test and trailing strip
// ---------------------------------------------------------------------------

/// Whether `p` is a prefix of `s`.
pub open spec fn spec_has_prefix(s: Seq<char>, p: Seq<char>) -> bool {
    s.len() >= p.len() && s.subrange(0, p.len() as int) == p
}

/// Test whether `s` starts with `p`.
pub fn has_prefix(s: &str, p: &str) -> (r: bool)
    ensures
        r == spec_has_prefix(s@, p@),
{
    let n = s.unicode_len();
    let m = p.unicode_len();
    if n < m {
        proof {
            assert(!spec_has_prefix(s@, p@));
        }
        return false;
    }
    let mut i: usize = 0;
    while i < m
        invariant
            n == s@.len(),
            m == p@.len(),
            m <= n,
            0 <= i <= m,
            forall|j: int| 0 <= j < i ==> s@[j] == p@[j],
        decreases m - i,
    {
        if s.get_char(i) != p.get_char(i) {
            proof {
                assert(s@.subrange(0, m as int)[i as int] != p@[i as int]);
            }
            return false;
        }
        i = i + 1;
    }
    proof {
        assert(s@.subrange(0, m as int) =~= p@);
    }
    true
}

/// The sequence with every copy of `c` removed from its end.
pub open spec fn spec_strip_trailing(s: Seq<char>, c: char) -> Seq<char>
    decreases s.len(),
{
    if s.len() > 0 && s[s.len() - 1] == c {
        spec_strip_trailing(s.drop_last(), c)
    } else {
        s
    }
}

proof fn lemma_strip_trailing_at(s: Seq<char>, c: char, i: int)
    requires
        0 <= i <= s.len(),
        forall|j: int| i <= j < s.len() ==> s[j] == c,
        i == 0 || s[i - 1] != c,
    ensures
        spec_strip_trailing(s, c) == s.subrange(0, i),
    decreases s.len() - i,
{
    if i == s.len() {
        assert(spec_strip_trailing(s, c) =~= s.subrange(0, i));
    } else {
        let t = s.drop_last();
        lemma_strip_trailing_at(t, c, i);
        assert(t.subrange(0, i) =~= s.subrange(0, i));
    }
}

/// Remove every copy of `c` from the end of `s`.
pub fn strip_trailing_char(s: &str, c: char) -> (r: String)
    ensures
        r@ == spec_strip_trailing(s@, c),
{
    let n = s.unicode_len();
    let mut i: usize = n;
    while i > 0 && s.get_char(i - 1) == c
        invariant
            n == s@.len(),
            0 <= i <= n,
            forall|j: int| i <= j < n ==> s@[j] == c,
        decreases i,
    {
        i = i - 1;
    }
    proof {
        lemma_strip_trailing_at(s@, c, i as int);
    }
    let kept = s.substring_char(0, i);
    kept.to_owned()
}

// ---------------------------------------------------------------------------
// File extension of a URL path
// ---------------------------------------------------------------------------

/// The start of the final path component: one past the last `/`, or 0.
pub open spec fn spec_last_component_start(s: Seq<char>) -> int
    decreases s.len(),
{
    if s.len() == 0 {
        0
    } else if s[s.len() - 1] == '/' {
        s.len() as int
    } else {
        spec_last_component_start(s.drop_last())
    }
}

/// The extension of the final path component of `s`: the text after its
/// last `.`, provided the dot is not its first character.  `None` when the
/// component has no such dot.
pub open spec fn spec_url_extension(s: Seq<char>) -> Option<Seq<char>> {
    let start = spec_last_component_start(s);
    let comp = s.subrange(start, s.len() as int);
    if exists|i: int| 1 <= i < comp.len() && comp[i] == '.' {
        let dot = choose|i: int| 1 <= i < comp.len() && comp[i] == '.'
            && forall|j: int| i < j < comp.len() ==> comp[j] != '.';
        Some(comp.subrange(dot + 1, comp.len() as int))
    } else {
        None
    }
}

proof fn lemma_last_component_start_at(s: Seq<char>, i: int)
    requires
        0 <= i <= s.len(),
        forall|j: int| i <= j < s.len() ==> s[j] != '/',
        i == 0 || s[i - 1] == '/',
    ensures
        spec_last_component_start(s) == i,
    decreases s.len() - i,
{
    if i == s.len() {
        if i > 0 {
            assert(s[s.len() - 1] == '/');
        } else {
            assert(s.len() == 0);
        }
    } else {
        assert(s[s.len() - 1] != '/');
        let t = s.drop_last();
        lemma_last_component_start_at(t, i);
    }
}

/// The file extension the download layout uses for `url`: the extension of
/// the URL's last path component, or `jpg` when it has none.
pub fn url_extension_or_jpg(url: &str) -> (r: String)
    ensures
        r@ == (match spec_url_extension(url@) {
            Some(e) => e,
            None => "jpg"@,
        }),
{
    let n = url.unicode_len();
    // find one past the last '/'
    let mut start: usize = n;
    while start > 0 && url.get_char(start - 1) != '/'
        invariant
            n == url@.len(),
            0 <= start <= n,
            forall|j: int| start <= j < n ==> url@[j] != '/',
        decreases start,
    {
        start = start - 1;
    }
    proof {
        lemma_last_component_start_at(url@, start as int);
    }
    let ghost comp = url@.subrange(start as int, n as int);
    // find the last '.' strictly after the component's first character
    let mut dot: usize = n;
    let mut have_dot: bool = false;
    let mut k: usize = n;
    while k - start > 1
        invariant
            n == url@.len(),
            start <= k <= n,
            have_dot ==> start + 1 <= dot < n && url@[dot as int] == '.' && forall|j: int|
                dot < j < n ==> url@[j] != '.',
            !have_dot ==> forall|j: int| k <= j < n ==> url@[j] != '.',
            !have_dot ==> dot == n,
            have_dot ==> k <= dot,
        decreases k,
    {
        if !have_dot && url.get_char(k - 1) == '.' {
            dot = k - 1;
            have_dot = true;
        }
        k = k - 1;
    }
    if have_dot {
        proof {
            let di = dot - start;
            assert(comp[di] == '.');
            assert(1 <= di < comp.len());
            assert(forall|j: int| di < j < comp.len() ==> comp[j] != '.');
            let w = choose|i: int| 1 <= i < comp.len() && comp[i] == '.'
                && forall|j: int| i < j < comp.len() ==> comp[j] != '.';
            assert(w == di) by {
                if w != di {
                    if w < di {
                        assert(comp[di] == '.');
                    } else {
                        assert(comp[w] == '.');
                    }
                }
            }
            assert(comp.subrange(di + 1, comp.len() as int) =~= url@.subrange(
                dot + 1,
                n as int,
            ));
        }
        let ext = url.substring_char(dot + 1, n);
        ext.to_owned()
    } else {
        proof {
            assert(forall|i: int| 1 <= i < comp.len() ==> comp[i] != '.') by {
                assert(forall|j: int| start + 1 <= j < n ==> url@[j] != '.');
            }
        }
        let mut out = String::new();
        out.append("jpg");
        out
    }
}

/// The final path component of `s`: the text after its last `/`, or all of
/// `s` when it has none.
pub fn last_path_component(s: &str) -> (r: String)
    ensures
        r@ == s@.subrange(spec_last_component_start(s@), s@.len() as int),
{
    let n = s.unicode_len();
    let mut start: usize = n;
    while start > 0 && s.get_char(start - 1) != '/'
        invariant
            n == s@.len(),
            0 <= start <= n,
            forall|j: int| start <= j < n ==> s@[j] != '/',
        decreases start,
    {
        start = start - 1;
    }
    proof {
        lemma_last_component_start_at(s@, start as int);
    }
    let comp = s.substring_char(start, n);
    comp.to_owned()
}

} // verus!
