//! Character-level text handling shared by the parsers: whitespace, trimming,
//! line and word splitting, decimal numbers.
use vstd::prelude::*;

verus! {

broadcast use vstd::string::group_string_axioms;

// ---------------------------------------------------------------------------
// Specifications
// ---------------------------------------------------------------------------

/// The Unicode `White_Space` property, which `char::is_whitespace` tests.
pub open spec fn is_ws(c: char) -> bool {
    ||| ('\u{9}' <= c && c <= '\u{d}')
    ||| c == ' '
    ||| c == '\u{85}'
    ||| c == '\u{a0}'
    ||| c == '\u{1680}'
    ||| ('\u{2000}' <= c && c <= '\u{200a}')
    ||| c == '\u{2028}'
    ||| c == '\u{2029}'
    ||| c == '\u{202f}'
    ||| c == '\u{205f}'
    ||| c == '\u{3000}'
}

/// Index of the first character of `s` that satisfies `p`, or `s.len()` when none does.
pub open spec fn find_first(s: Seq<char>, p: spec_fn(char) -> bool) -> int
    decreases s.len(),
{
    if s.len() == 0 {
        0
    } else if p(s[0]) {
        0
    } else {
        1 + find_first(s.drop_first(), p)
    }
}

pub open spec fn ws_pred() -> spec_fn(char) -> bool {
    |c: char| is_ws(c)
}

pub open spec fn char_pred(x: char) -> spec_fn(char) -> bool {
    |c: char| c == x
}

/// `s` without its leading whitespace (`str::trim_start`).
pub open spec fn trim_start(s: Seq<char>) -> Seq<char>
    decreases s.len(),
{
    if s.len() > 0 && is_ws(s[0]) {
        trim_start(s.drop_first())
    } else {
        s
    }
}

/// `s` without its trailing whitespace (`str::trim_end`).
pub open spec fn trim_end(s: Seq<char>) -> Seq<char>
    decreases s.len(),
{
    if s.len() > 0 && is_ws(s.last()) {
        trim_end(s.drop_last())
    } else {
        s
    }
}

/// `s` without leading and trailing whitespace (`str::trim`).
pub open spec fn trim(s: Seq<char>) -> Seq<char> {
    trim_end(trim_start(s))
}

/// A line without the `'\r'` of a `"\r\n"` ending.
pub open spec fn strip_cr(l: Seq<char>) -> Seq<char> {
    if l.len() > 0 && l.last() == '\r' {
        l.drop_last()
    } else {
        l
    }
}

/// The lines of `s` as `str::lines` yields them: split at `'\n'`, a `'\r'` before
/// a `'\n'` dropped, and no empty last line after a final `'\n'`.
pub open spec fn lines(s: Seq<char>) -> Seq<Seq<char>>
    decreases s.len(),
{
    if s.len() == 0 {
        seq![]
    } else {
        let i = find_first(s, char_pred('\n'));
        if 0 <= i < s.len() {
            seq![strip_cr(s.take(i))] + lines(s.skip(i + 1))
        } else {
            seq![s]
        }
    }
}

/// The maximal runs of characters that do not satisfy `p` (the separators),
/// in order; no run is empty.
pub open spec fn fields(s: Seq<char>, p: spec_fn(char) -> bool) -> Seq<Seq<char>>
    decreases s.len(),
{
    if s.len() == 0 {
        seq![]
    } else if p(s[0]) {
        fields(s.drop_first(), p)
    } else {
        let i = find_first(s, p);
        if 0 < i <= s.len() {
            seq![s.take(i)] + fields(s.skip(i), p)
        } else {
            seq![s]
        }
    }
}

/// The words of `s` as `str::split_whitespace` yields them.
pub open spec fn words(s: Seq<char>) -> Seq<Seq<char>> {
    fields(s, ws_pred())
}

/// `parts` joined with `sep` between neighbours (`[T]::join`).
pub open spec fn join_with(parts: Seq<Seq<char>>, sep: Seq<char>) -> Seq<char>
    decreases parts.len(),
{
    if parts.len() == 0 {
        seq![]
    } else if parts.len() == 1 {
        parts[0]
    } else {
        join_with(parts.drop_last(), sep) + sep + parts.last()
    }
}

/// Whether `s` holds the character `c`.
pub open spec fn has_char(s: Seq<char>, c: char) -> bool {
    exists|i: int| 0 <= i < s.len() && s[i] == c
}

/// Whether every character of `s` is ASCII.
pub open spec fn is_ascii_text(s: Seq<char>) -> bool {
    forall|i: int| 0 <= i < s.len() ==> (#[trigger] s[i] as u32) < 128
}

/// `c` with an ASCII uppercase letter turned into its lowercase letter.
pub open spec fn ascii_lower_char(c: char) -> char {
    if 'A' <= c && c <= 'Z' {
        ((c as u32) + 32) as char
    } else {
        c
    }
}

/// `s` with its ASCII uppercase letters turned into lowercase ones.
pub open spec fn ascii_lowercase(s: Seq<char>) -> Seq<char> {
    s.map_values(|c: char| ascii_lower_char(c))
}

/// What `str::to_lowercase` gives: the ASCII lowercase of ASCII text, else
/// Unicode's lowercase mapping.
pub open spec fn lowercase_text(s: Seq<char>) -> Seq<char> {
    if is_ascii_text(s) {
        ascii_lowercase(s)
    } else {
        crate::trusted::unicode_lowercase(s)
    }
}

pub open spec fn is_digit(c: char) -> bool {
    '0' <= c && c <= '9'
}

pub open spec fn all_digits(s: Seq<char>) -> bool {
    forall|i: int| 0 <= i < s.len() ==> is_digit(#[trigger] s[i])
}

/// The number written by the decimal digits `s`.
pub open spec fn digits_value(s: Seq<char>) -> nat
    decreases s.len(),
{
    if s.len() == 0 {
        0
    } else {
        digits_value(s.drop_last()) * 10 + ((s.last() as nat) - ('0' as nat)) as nat
    }
}

/// What `str::parse` gives for an unsigned integer type whose largest value is
/// `max`: an optional `'+'`, then one or more decimal digits, the value at most `max`.
pub open spec fn parse_unsigned(s: Seq<char>, max: nat) -> Option<nat> {
    let d = if s.len() > 0 && s[0] == '+' {
        s.drop_first()
    } else {
        s
    };
    if d.len() > 0 && all_digits(d) && digits_value(d) <= max {
        Some(digits_value(d))
    } else {
        None
    }
}

pub open spec fn digit_char(d: nat) -> char {
    (('0' as nat) + d) as char
}

/// The decimal text of `n`, without sign or leading zeros (`u64`'s `Display`).
pub open spec fn decimal(n: nat) -> Seq<char>
    decreases n,
{
    if n < 10 {
        seq![digit_char(n)]
    } else {
        decimal(n / 10).push(digit_char(n % 10))
    }
}

// ---------------------------------------------------------------------------
// Lemmas
// ---------------------------------------------------------------------------

/// `find_first` is the first index that satisfies the predicate.
pub proof fn lemma_find_first(s: Seq<char>, p: spec_fn(char) -> bool, j: int)
    requires
        0 <= j <= s.len(),
        forall|k: int| 0 <= k < j ==> !p(#[trigger] s[k]),
        j == s.len() || p(s[j]),
    ensures
        find_first(s, p) == j,
    decreases s.len(),
{
    if s.len() > 0 && j > 0 {
        assert forall|k: int| 0 <= k < j - 1 implies !p(#[trigger] s.drop_first()[k]) by {
            assert(s.drop_first()[k] == s[k + 1]);
        }
        lemma_find_first(s.drop_first(), p, j - 1);
    }
}

pub proof fn lemma_find_first_bounds(s: Seq<char>, p: spec_fn(char) -> bool)
    ensures
        0 <= find_first(s, p) <= s.len(),
        find_first(s, p) < s.len() ==> p(s[find_first(s, p)]),
        forall|k: int| 0 <= k < find_first(s, p) ==> !p(#[trigger] s[k]),
    decreases s.len(),
{
    if s.len() > 0 && !p(s[0]) {
        lemma_find_first_bounds(s.drop_first(), p);
        assert forall|k: int| 0 <= k < find_first(s, p) implies !p(#[trigger] s[k]) by {
            if k > 0 {
                assert(s[k] == s.drop_first()[k - 1]);
            }
        }
    }
}

pub proof fn lemma_digits_value_push(s: Seq<char>, c: char)
    ensures
        digits_value(s.push(c)) == digits_value(s) * 10 + ((c as nat) - ('0' as nat)) as nat,
{
    assert(s.push(c).drop_last() =~= s);
}

pub proof fn lemma_digits_value_prefix(s: Seq<char>, k: int)
    requires
        0 <= k <= s.len(),
        all_digits(s),
    ensures
        digits_value(s.take(k)) <= digits_value(s),
    decreases s.len() - k,
{
    if k < s.len() {
        lemma_digits_value_prefix(s, k + 1);
        assert(s.take(k + 1) =~= s.take(k).push(s[k]));
        lemma_digits_value_push(s.take(k), s[k]);
        assert(is_digit(s[k]));
    } else {
        assert(s.take(k) =~= s);
    }
}

/// The decimal text of a number is a run of digits that denotes it.
pub proof fn lemma_decimal_digits(n: nat)
    ensures
        decimal(n).len() > 0,
        all_digits(decimal(n)),
        digits_value(decimal(n)) == n,
    decreases n,
{
    let d = (n % 10) as nat;
    assert(('0' as nat) + d < 0xD800);
    assert((digit_char(d) as nat) == ('0' as nat) + d);
    if n < 10 {
        assert(n % 10 == n);
        assert(seq![digit_char(n)].drop_last() =~= Seq::<char>::empty());
        assert(digits_value(Seq::<char>::empty()) == 0);
    } else {
        lemma_decimal_digits(n / 10);
        lemma_digits_value_push(decimal(n / 10), digit_char(d));
        assert((n / 10) * 10 + n % 10 == n) by (nonlinear_arith);
        let t = decimal(n);
        assert forall|i: int| 0 <= i < t.len() implies is_digit(#[trigger] t[i]) by {
            if i < t.len() - 1 {
                assert(t[i] == decimal(n / 10)[i]);
            }
        }
    }
}

/// `str::parse` reads back the decimal text of every number up to the
/// largest value of the type, and no larger number.
pub proof fn lemma_parse_decimal(n: nat, max: nat)
    ensures
        parse_unsigned(decimal(n), max) == (if n <= max {
            Some(n)
        } else {
            None::<nat>
        }),
{
    lemma_decimal_digits(n);
    assert(is_digit(decimal(n)[0]));
}

/// The number of times `c` occurs in `s`.
pub open spec fn count_char(s: Seq<char>, c: char) -> nat
    decreases s.len(),
{
    if s.len() == 0 {
        0
    } else {
        count_char(s.drop_last(), c) + (if s.last() == c {
            1nat
        } else {
            0nat
        })
    }
}

pub proof fn lemma_count_concat(a: Seq<char>, b: Seq<char>, c: char)
    ensures
        count_char(a + b, c) == count_char(a, c) + count_char(b, c),
    decreases b.len(),
{
    if b.len() == 0 {
        assert(a + b =~= a);
    } else {
        lemma_count_concat(a, b.drop_last(), c);
        assert((a + b).drop_last() =~= a + b.drop_last());
    }
}

pub proof fn lemma_count_absent(s: Seq<char>, c: char)
    requires
        !has_char(s, c),
    ensures
        count_char(s, c) == 0,
    decreases s.len(),
{
    if s.len() > 0 {
        assert(!has_char(s.drop_last(), c)) by {
            if has_char(s.drop_last(), c) {
                let i = choose|i: int| 0 <= i < s.drop_last().len() && s.drop_last()[i] == c;
                assert(s[i] == c);
            }
        }
        lemma_count_absent(s.drop_last(), c);
        assert(s[s.len() - 1] != c);
    }
}

/// A text has at most one line more than it has `'\n'`.
pub proof fn lemma_lines_len(s: Seq<char>)
    ensures
        lines(s).len() <= count_char(s, '\n') + 1,
    decreases s.len(),
{
    if s.len() > 0 {
        let i = find_first(s, char_pred('\n'));
        lemma_find_first_bounds(s, char_pred('\n'));
        if 0 <= i < s.len() {
            lemma_lines_len(s.skip(i + 1));
            assert(s =~= s.take(i) + seq!['\n'] + s.skip(i + 1));
            lemma_count_concat(s.take(i) + seq!['\n'], s.skip(i + 1), '\n');
            lemma_count_concat(s.take(i), seq!['\n'], '\n');
            assert(seq!['\n'].drop_last() =~= Seq::<char>::empty());
        }
    }
}

/// The lines of two texts, the first empty or ending in `'\n'`, are the lines
/// of each in turn.
pub proof fn lemma_lines_concat(a: Seq<char>, b: Seq<char>)
    requires
        a.len() == 0 || a.last() == '\n',
    ensures
        lines(a + b) == lines(a) + lines(b),
    decreases a.len(),
{
    if a.len() == 0 {
        assert(a + b =~= b);
        assert(lines(a) =~= Seq::<Seq<char>>::empty());
        assert(lines(a) + lines(b) =~= lines(b));
    } else {
        let p = char_pred('\n');
        let s = a + b;
        lemma_find_first_bounds(a, p);
        let i = find_first(a, p);
        assert(p(a[a.len() - 1]));
        assert(i < a.len()) by {
            if i >= a.len() {
                assert(!p(a[a.len() - 1]));
            }
        }
        assert forall|k: int| 0 <= k < i implies !p(#[trigger] s[k]) by {
            assert(s[k] == a[k]);
        }
        assert(s[i] == a[i]);
        lemma_find_first(s, p, i);
        assert(s.take(i) =~= a.take(i));
        assert(s.skip(i + 1) =~= a.skip(i + 1) + b);
        let rest = a.skip(i + 1);
        assert(rest.len() == 0 || rest.last() == '\n') by {
            if rest.len() > 0 {
                assert(rest.last() == a.last());
            }
        }
        lemma_lines_concat(rest, b);
        assert(lines(s) =~= seq![strip_cr(a.take(i))] + (lines(rest) + lines(b)));
        assert(lines(a) == seq![strip_cr(a.take(i))] + lines(rest));
        assert(lines(s) =~= lines(a) + lines(b));
    }
}

/// A line without `'\n'` followed by `'\n'` is one line of a text.
pub proof fn lemma_lines_of_line(l: Seq<char>)
    requires
        !has_char(l, '\n'),
    ensures
        lines(l + seq!['\n']) == seq![strip_cr(l)],
{
    let p = char_pred('\n');
    let s = l + seq!['\n'];
    assert forall|k: int| 0 <= k < l.len() implies !p(#[trigger] s[k]) by {
        assert(s[k] == l[k]);
    }
    lemma_find_first(s, p, l.len() as int);
    assert(s.take(l.len() as int) =~= l);
    assert(s.skip(l.len() as int + 1) =~= Seq::<char>::empty());
    assert(lines(s.skip(l.len() as int + 1)) =~= Seq::<Seq<char>>::empty());
    assert(lines(s) == seq![strip_cr(l)] + lines(s.skip(l.len() as int + 1)));
    assert(lines(s) =~= seq![strip_cr(l)]);
}

/// No line of a text holds `'\n'`.
pub proof fn lemma_lines_have_no_newline(s: Seq<char>)
    ensures
        forall|k: int| 0 <= k < lines(s).len() ==> !has_char(#[trigger] lines(s)[k], '\n'),
    decreases s.len(),
{
    if s.len() > 0 {
        let i = find_first(s, char_pred('\n'));
        lemma_find_first_bounds(s, char_pred('\n'));
        if 0 <= i < s.len() {
            lemma_lines_have_no_newline(s.skip(i + 1));
            let first = strip_cr(s.take(i));
            assert(!has_char(first, '\n')) by {
                if has_char(first, '\n') {
                    let j = choose|j: int| 0 <= j < first.len() && first[j] == '\n';
                    assert(first[j] == s[j]);
                }
            }
            assert forall|k: int| 0 <= k < lines(s).len() implies !has_char(#[trigger] lines(s)[k], '\n') by {
                if k > 0 {
                    assert(lines(s)[k] == lines(s.skip(i + 1))[k - 1]);
                }
            }
        } else {
            assert(!has_char(s, '\n')) by {
                if has_char(s, '\n') {
                    let j = choose|j: int| 0 <= j < s.len() && s[j] == '\n';
                    assert(!char_pred('\n')(s[j]));
                }
            }
        }
    }
}

/// Joining parts without `'\n'` by `'\n'` puts one between each neighbours.
pub proof fn lemma_join_newlines(parts: Seq<Seq<char>>)
    requires
        parts.len() >= 1,
        forall|k: int| 0 <= k < parts.len() ==> !has_char(#[trigger] parts[k], '\n'),
    ensures
        count_char(join_with(parts, seq!['\n']), '\n') == parts.len() - 1,
    decreases parts.len(),
{
    if parts.len() == 1 {
        lemma_count_absent(parts[0], '\n');
    } else {
        let init = parts.drop_last();
        assert forall|k: int| 0 <= k < init.len() implies !has_char(#[trigger] init[k], '\n') by {
            assert(init[k] == parts[k]);
        }
        lemma_join_newlines(init);
        lemma_count_absent(parts.last(), '\n');
        lemma_count_concat(join_with(init, seq!['\n']) + seq!['\n'], parts.last(), '\n');
        lemma_count_concat(join_with(init, seq!['\n']), seq!['\n'], '\n');
        assert(seq!['\n'].drop_last() =~= Seq::<char>::empty());
        assert(count_char(Seq::<char>::empty(), '\n') == 0);
        assert(count_char(seq!['\n'], '\n') == 1);
        assert(join_with(parts, seq!['\n']) == join_with(init, seq!['\n']) + seq!['\n'] + parts.last());
    }
}

// ---------------------------------------------------------------------------
// Trusted conversions between std strings and character vectors
// ---------------------------------------------------------------------------

/// Builds a `String` from characters (std's `FromIterator<&char> for String`):
/// the string holds exactly those characters, in order.
#[verifier::external_body]
pub(crate) fn string_from_chars(v: &Vec<char>) -> (r: String)
    ensures
        r@ == v@,
{
    v.iter().collect()
}

/// Appends one character (`String::push`).
#[verifier::external_body]
pub(crate) fn push_char(s: &mut String, c: char)
    ensures
        final(s)@ == old(s)@.push(c),
{
    s.push(c)
}

// ---------------------------------------------------------------------------
// Executable functions
// ---------------------------------------------------------------------------

/// The characters of a string slice, in order.
pub fn chars_of(s: &str) -> (r: Vec<char>)
    ensures
        r@ == s@,
{
    let mut r: Vec<char> = Vec::new();
    for c in it: s.chars()
        invariant
            it.seq() == s@,
            r@ == it.seq().take(it.index() as int),
    {
        r.push(c);
    }
    r
}

/// Whether `c` is whitespace (`char::is_whitespace`).
pub fn is_whitespace(c: char) -> (r: bool)
    ensures
        r == is_ws(c),
{
    ('\u{9}' <= c && c <= '\u{d}') || c == ' ' || c == '\u{85}' || c == '\u{a0}' || c
        == '\u{1680}' || ('\u{2000}' <= c && c <= '\u{200a}') || c == '\u{2028}' || c
        == '\u{2029}' || c == '\u{202f}' || c == '\u{205f}' || c == '\u{3000}'
}

/// The characters `v[lo..hi]`.
pub fn sub_chars(v: &Vec<char>, lo: usize, hi: usize) -> (r: Vec<char>)
    requires
        lo <= hi <= v.len(),
    ensures
        r@ == v@.subrange(lo as int, hi as int),
{
    let mut r: Vec<char> = Vec::new();
    let mut i = lo;
    while i < hi
        invariant
            lo <= i <= hi <= v.len(),
            r@ == v@.subrange(lo as int, i as int),
        decreases hi - i,
    {
        r.push(v[i]);
        i += 1;
    }
    r
}

/// `v` followed by `w`.
pub fn concat_chars(v: &Vec<char>, w: &Vec<char>) -> (r: Vec<char>)
    ensures
        r@ == v@ + w@,
{
    let mut r: Vec<char> = Vec::new();
    let mut i: usize = 0;
    while i < v.len()
        invariant
            i <= v.len(),
            r@ == v@.take(i as int),
        decreases v.len() - i,
    {
        r.push(v[i]);
        i += 1;
    }
    let mut j: usize = 0;
    while j < w.len()
        invariant
            i == v.len(),
            j <= w.len(),
            r@ == v@ + w@.take(j as int),
        decreases w.len() - j,
    {
        r.push(w[j]);
        j += 1;
    }
    assert(v@.take(v.len() as int) =~= v@);
    assert(w@.take(w.len() as int) =~= w@);
    r
}

/// Appends the characters of `w` to `v`.
pub fn extend_chars(v: &mut Vec<char>, w: &Vec<char>)
    ensures
        final(v)@ == old(v)@ + w@,
{
    let mut j: usize = 0;
    while j < w.len()
        invariant
            j <= w.len(),
            v@ == old(v)@ + w@.take(j as int),
        decreases w.len() - j,
    {
        v.push(w[j]);
        j += 1;
    }
    assert(w@.take(w.len() as int) =~= w@);
}

/// Index of the first `c` at or after `from`, or `v.len()`.
pub fn next_char(v: &Vec<char>, from: usize, c: char) -> (r: usize)
    requires
        from <= v.len(),
    ensures
        from <= r <= v.len(),
        r < v.len() ==> v@[r as int] == c,
        forall|k: int| from <= k < r ==> #[trigger] v@[k] != c,
{
    let mut j = from;
    while j < v.len() && v[j] != c
        invariant
            from <= j <= v.len(),
            forall|k: int| from <= k < j ==> #[trigger] v@[k] != c,
        decreases v.len() - j,
    {
        j += 1;
    }
    j
}

/// `v` without leading and trailing whitespace (`str::trim`).
pub fn trim_chars(v: &Vec<char>) -> (r: Vec<char>)
    ensures
        r@ == trim(v@),
{
    let n = v.len();
    let mut lo: usize = 0;
    assert(v@.subrange(0, n as int) =~= v@);
    while lo < n && is_whitespace(v[lo])
        invariant
            lo <= n == v.len(),
            trim_start(v@) == trim_start(v@.subrange(lo as int, n as int)),
        decreases n - lo,
    {
        assert(v@.subrange(lo as int, n as int).drop_first() =~= v@.subrange(
            lo as int + 1,
            n as int,
        ));
        lo += 1;
    }
    let mut hi: usize = n;
    while hi > lo && is_whitespace(v[hi - 1])
        invariant
            lo <= hi <= n == v.len(),
            trim(v@) == trim_end(v@.subrange(lo as int, hi as int)),
        decreases hi - lo,
    {
        assert(v@.subrange(lo as int, hi as int).drop_last() =~= v@.subrange(
            lo as int,
            hi as int - 1,
        ));
        hi -= 1;
    }
    sub_chars(v, lo, hi)
}

/// The lines of `v` (`str::lines`).
pub fn split_lines(v: &Vec<char>) -> (r: Vec<Vec<char>>)
    ensures
        r@.map_values(|l: Vec<char>| l@) == lines(v@),
{
    let n = v.len();
    let mut r: Vec<Vec<char>> = Vec::new();
    let mut start: usize = 0;
    assert(v@.skip(0) =~= v@);
    while start < n
        invariant
            start <= n == v.len(),
            lines(v@) == r@.map_values(|l: Vec<char>| l@) + lines(v@.skip(start as int)),
        decreases n - start,
    {
        let j = next_char(v, start, '\n');
        let ghost rest = v@.skip(start as int);
        proof {
            assert forall|k: int| 0 <= k < j - start implies !char_pred('\n')(
                #[trigger] rest[k],
            ) by {
                assert(rest[k] == v@[start + k]);
            }
            lemma_find_first(rest, char_pred('\n'), j - start);
        }
        let mut line = sub_chars(v, start, j);
        if j < n {
            if line.len() > 0 && line[line.len() - 1] == '\r' {
                line.pop();
            }
            assert(rest.take(j - start) =~= v@.subrange(start as int, j as int));
            assert(rest.skip(j - start + 1) =~= v@.skip(j + 1));
            let ghost before = r@.map_values(|l: Vec<char>| l@);
            r.push(line);
            assert(r@.map_values(|l: Vec<char>| l@) =~= before.push(strip_cr(rest.take(j - start))));
            start = j + 1;
        } else {
            assert(rest =~= v@.subrange(start as int, j as int));
            let ghost before = r@.map_values(|l: Vec<char>| l@);
            r.push(line);
            assert(r@.map_values(|l: Vec<char>| l@) =~= before.push(rest));
            start = n;
            assert(v@.skip(n as int) =~= Seq::<char>::empty());
        }
    }
    assert(v@.skip(n as int) =~= Seq::<char>::empty());
    r
}

/// Whether `c` separates fields: whitespace when `by_ws`, otherwise `sep`.
fn is_separator(c: char, by_ws: bool, sep: char) -> (r: bool)
    ensures
        r == (if by_ws {
            ws_pred()
        } else {
            char_pred(sep)
        })(c),
{
    if by_ws {
        is_whitespace(c)
    } else {
        c == sep
    }
}

/// Splits `v` into the runs between separators: whitespace when `by_ws`,
/// otherwise the character `sep` (`split_whitespace`, or `split(sep)` without
/// the empty pieces).
pub fn split_fields(v: &Vec<char>, by_ws: bool, sep: char) -> (r: Vec<Vec<char>>)
    ensures
        r@.map_values(|w: Vec<char>| w@) == fields(
            v@,
            if by_ws {
                ws_pred()
            } else {
                char_pred(sep)
            },
        ),
{
    let ghost p = if by_ws {
        ws_pred()
    } else {
        char_pred(sep)
    };
    let n = v.len();
    let mut r: Vec<Vec<char>> = Vec::new();
    let mut i: usize = 0;
    assert(v@.skip(0) =~= v@);
    while i < n
        invariant
            i <= n == v.len(),
            p == (if by_ws {
                ws_pred()
            } else {
                char_pred(sep)
            }),
            fields(v@, p) == r@.map_values(|w: Vec<char>| w@) + fields(v@.skip(i as int), p),
        decreases n - i,
    {
        let ghost rest = v@.skip(i as int);
        if is_separator(v[i], by_ws, sep) {
            assert(rest.drop_first() =~= v@.skip(i + 1));
            i += 1;
        } else {
            let mut j = i;
            while j < n && !is_separator(v[j], by_ws, sep)
                invariant
                    i <= j <= n == v.len(),
                    p == (if by_ws {
                        ws_pred()
                    } else {
                        char_pred(sep)
                    }),
                    forall|k: int| i <= k < j ==> !p(#[trigger] v@[k]),
                decreases n - j,
            {
                j += 1;
            }
            proof {
                assert forall|k: int| 0 <= k < j - i implies !p(#[trigger] rest[k]) by {
                    assert(rest[k] == v@[i + k]);
                }
                lemma_find_first(rest, p, j - i);
            }
            let word = sub_chars(v, i, j);
            assert(rest.take(j - i) =~= v@.subrange(i as int, j as int));
            assert(rest.skip(j - i) =~= v@.skip(j as int));
            let ghost before = r@.map_values(|w: Vec<char>| w@);
            r.push(word);
            assert(r@.map_values(|w: Vec<char>| w@) =~= before.push(rest.take(j - i)));
            i = j;
        }
    }
    assert(v@.skip(n as int) =~= Seq::<char>::empty());
    r
}

/// The words of `v` (`str::split_whitespace`).
pub fn split_words(v: &Vec<char>) -> (r: Vec<Vec<char>>)
    ensures
        r@.map_values(|w: Vec<char>| w@) == words(v@),
{
    split_fields(v, true, ' ')
}

/// `parts` joined with `sep` between neighbours.
pub fn join_chars(parts: &Vec<Vec<char>>, sep: &Vec<char>) -> (r: Vec<char>)
    ensures
        r@ == join_with(parts@.map_values(|w: Vec<char>| w@), sep@),
{
    let ghost ps = parts@.map_values(|w: Vec<char>| w@);
    let mut r: Vec<char> = Vec::new();
    let mut i: usize = 0;
    while i < parts.len()
        invariant
            i <= parts.len(),
            ps == parts@.map_values(|w: Vec<char>| w@),
            r@ == join_with(ps.take(i as int), sep@),
        decreases parts.len() - i,
    {
        if i > 0 {
            extend_chars(&mut r, sep);
        }
        extend_chars(&mut r, &parts[i]);
        assert(ps.take(i + 1).drop_last() =~= ps.take(i as int));
        assert(ps.take(i + 1).last() == parts@[i as int]@);
        i += 1;
    }
    assert(ps.take(parts.len() as int) =~= ps);
    r
}

/// The number that `v` writes, as `str::parse` reads an unsigned integer no
/// larger than `max`; `None` where it reports an error.
pub fn parse_bounded(v: &Vec<char>, max: u64) -> (r: Option<u64>)
    ensures
        r == (match parse_unsigned(v@, max as nat) {
            Some(n) => Some(n as u64),
            None => None,
        }),
{
    let n = v.len();
    let start: usize = if n > 0 && v[0] == '+' { 1 } else { 0 };
    let ghost d = if v@.len() > 0 && v@[0] == '+' { v@.drop_first() } else { v@ };
    assert(d =~= v@.skip(start as int));
    if start == n {
        return None;
    }
    let mut acc: u64 = 0;
    let mut i: usize = start;
    while i < n
        invariant
            start <= i <= n == v.len(),
            d == (if v@.len() > 0 && v@[0] == '+' { v@.drop_first() } else { v@ }),
            d =~= v@.skip(start as int),
            acc as nat == digits_value(d.take(i - start)),
            acc <= max,
            all_digits(d.take(i - start)),
        decreases n - i,
    {
        let c = v[i];
        if !('0' <= c && c <= '9') {
            assert(d[i - start] == c);
            assert(!is_digit(d[i - start]));
            assert(!all_digits(d));
            assert(parse_unsigned(v@, max as nat) is None);
            return None;
        }
        let dig: u64 = (c as u32 - '0' as u32) as u64;
        assert(d.take(i - start + 1) =~= d.take(i - start).push(c));
        proof {
            lemma_digits_value_push(d.take(i - start), c);
        }
        if dig > max || acc > (max - dig) / 10 {
            proof {
                if dig <= max {
                    assert(acc * 10 + dig > max) by (nonlinear_arith)
                        requires
                            acc > (max - dig) / 10,
                            dig <= max,
                    ;
                }
                if all_digits(d) {
                    lemma_digits_value_prefix(d, i - start + 1);
                }
                assert(parse_unsigned(v@, max as nat) is None);
            }
            return None;
        }
        assert(acc * 10 + dig <= max) by (nonlinear_arith)
            requires
                acc <= (max - dig) / 10,
                dig <= max,
        ;
        acc = acc * 10 + dig;
        i += 1;
    }
    assert(d.take(n - start) =~= d);
    Some(acc)
}

/// The decimal digits of `n` (`u64`'s `Display`).
pub fn decimal_chars(n: u64) -> (r: Vec<char>)
    ensures
        r@ == decimal(n as nat),
    decreases n,
{
    if n < 10 {
        let mut r: Vec<char> = Vec::new();
        r.push((48u8 + n as u8) as char);
        r
    } else {
        let mut r = decimal_chars(n / 10);
        r.push((48u8 + (n % 10) as u8) as char);
        r
    }
}


/// The decimal text of `n` (`u64`'s `Display`).
pub fn decimal_string(n: u64) -> (r: String)
    ensures
        r@ == decimal(n as nat),
{
    string_from_chars(&decimal_chars(n))
}


/// `s` without leading and trailing whitespace (`str::trim`), as a `String`.
pub fn trim_str(s: &str) -> (r: String)
    ensures
        r@ == trim(s@),
{
    string_from_chars(&trim_chars(&chars_of(s)))
}

} // verus!
