//! Character-level text utilities shared by the parsers and the renderer:
//! conversion between strings and character vectors, whitespace
//! tokenization, prefix and substring tests, decimal parsing and decimal
//! formatting. Everything works on the character view of a string.

use vstd::prelude::*;

verus! {

/// Relies on std's `String::push`: appends exactly the one character.
pub assume_specification[ String::push ](s: &mut String, c: char)
    ensures
        final(s)@ == old(s)@.push(c),
;

/// The characters of `s`, in order, as a vector.
pub fn str_chars(s: &str) -> (v: Vec<char>)
    ensures
        v@ =~= s@,
{
    let n = s.unicode_len();
    let mut v: Vec<char> = Vec::new();
    let mut i: usize = 0;
    while i < n
        invariant
            i <= n,
            n == s@.len(),
            v@.len() == i,
            forall|k: int| 0 <= k < i ==> v@[k] == s@[k],
        decreases n - i,
    {
        v.push(s.get_char(i));
        i = i + 1;
    }
    v
}

/// The characters of `v`, in order, as a string.
pub fn chars_to_string(v: &Vec<char>) -> (s: String)
    ensures
        s@ =~= v@,
{
    let mut s = String::new();
    let mut i: usize = 0;
    while i < v.len()
        invariant
            i <= v@.len(),
            s@ =~= v@.take(i as int),
        decreases v@.len() - i,
    {
        s.push(v[i]);
        i = i + 1;
        proof {
            assert(s@ =~= v@.take(i as int));
        }
    }
    proof {
        assert(v@.take(v@.len() as int) =~= v@);
    }
    s
}

/// The ASCII whitespace that the tokenizer splits on.
pub open spec fn spec_is_ws(c: char) -> bool {
    c == ' ' || c == '\t' || c == '\r' || c == '\n'
}

pub fn is_ws(c: char) -> (r: bool)
    ensures
        r == spec_is_ws(c),
{
    c == ' ' || c == '\t' || c == '\r' || c == '\n'
}

/// Length of the leading run of non-whitespace characters.
pub open spec fn spec_token_len(s: Seq<char>) -> int
    decreases s.len(),
{
    if s.len() == 0 {
        0
    } else if spec_is_ws(s[0]) {
        0
    } else {
        1 + spec_token_len(s.drop_first())
    }
}

pub proof fn lemma_token_len_bounds(s: Seq<char>)
    ensures
        0 <= spec_token_len(s) <= s.len(),
        s.len() > 0 && !spec_is_ws(s[0]) ==> spec_token_len(s) >= 1,
        forall|k: int| 0 <= k < spec_token_len(s) ==> !spec_is_ws(s[k]),
        spec_token_len(s) < s.len() ==> spec_is_ws(s[spec_token_len(s)]),
    decreases s.len(),
{
    if s.len() > 0 && !spec_is_ws(s[0]) {
        lemma_token_len_bounds(s.drop_first());
        assert forall|k: int| 0 <= k < spec_token_len(s) implies !spec_is_ws(s[k]) by {
            if k > 0 {
                assert(!spec_is_ws(s.drop_first()[k - 1]));
            }
        }
    }
}

/// The maximal non-whitespace tokens of `s`, in order; whitespace runs of
/// any length separate them, and leading or trailing whitespace adds no
/// empty token.
pub open spec fn spec_split_ws(s: Seq<char>) -> Seq<Seq<char>>
    decreases s.len(),
    via spec_split_ws_decreases
{
    if s.len() == 0 {
        seq![]
    } else if spec_is_ws(s[0]) {
        spec_split_ws(s.drop_first())
    } else {
        seq![s.take(spec_token_len(s))] + spec_split_ws(s.skip(spec_token_len(s)))
    }
}

#[via_fn]
proof fn spec_split_ws_decreases(s: Seq<char>) {
    if s.len() > 0 && !spec_is_ws(s[0]) {
        lemma_token_len_bounds(s);
    }
}

/// The tokens joined by a single `sep` between neighbours.
pub open spec fn spec_join(ts: Seq<Seq<char>>, sep: char) -> Seq<char>
    decreases ts.len(),
{
    if ts.len() == 0 {
        seq![]
    } else if ts.len() == 1 {
        ts[0]
    } else {
        ts[0] + seq![sep] + spec_join(ts.drop_first(), sep)
    }
}

/// A scan that stops at the first whitespace (or the end) has measured the
/// leading token.
proof fn lemma_token_scan(s: Seq<char>, j: int)
    requires
        0 <= j <= s.len(),
        forall|k: int| 0 <= k < j ==> !spec_is_ws(s[k]),
        j == s.len() || spec_is_ws(s[j]),
    ensures
        spec_token_len(s) == j,
    decreases j,
{
    if j > 0 {
        lemma_token_scan(s.drop_first(), j - 1);
    }
}

/// Split `s` into its whitespace-separated tokens.
pub fn split_whitespace(s: &Vec<char>) -> (tokens: Vec<Vec<char>>)
    ensures
        tokens.deep_view() == spec_split_ws(s@),
{
    let n = s.len();
    let mut tokens: Vec<Vec<char>> = Vec::new();
    let mut i: usize = 0;
    proof {
        assert(s@.skip(0) =~= s@);
        assert(tokens.deep_view() =~~= Seq::<Seq<char>>::empty());
        assert(tokens.deep_view() + spec_split_ws(s@.skip(0)) =~~= spec_split_ws(s@));
    }
    while i < n
        invariant
            i <= n,
            n == s@.len(),
            tokens.deep_view() + spec_split_ws(s@.skip(i as int)) =~~= spec_split_ws(s@),
        decreases n - i,
    {
        if is_ws(s[i]) {
            proof {
                assert(s@.skip(i as int).drop_first() =~= s@.skip(i as int + 1));
            }
            i = i + 1;
        } else {
            let start = i;
            let mut token: Vec<char> = Vec::new();
            while i < n && !is_ws(s[i])
                invariant
                    start <= i <= n,
                    n == s@.len(),
                    token@ =~= s@.subrange(start as int, i as int),
                    forall|k: int| start <= k < i ==> !spec_is_ws(s@[k]),
                decreases n - i,
            {
                token.push(s[i]);
                i = i + 1;
                proof {
                    assert(token@ =~= s@.subrange(start as int, i as int));
                }
            }
            proof {
                let rest = s@.skip(start as int);
                lemma_token_scan(rest, i - start);
                assert(token@ =~= rest.take(i - start));
                assert(rest.skip(i - start) =~= s@.skip(i as int));
                assert(spec_split_ws(rest) =~~= seq![token@] + spec_split_ws(s@.skip(i as int)));
            }
            let ghost before = tokens.deep_view();
            tokens.push(token);
            proof {
                assert(tokens.deep_view() =~~= before + seq![token@]);
                assert(tokens.deep_view() + spec_split_ws(s@.skip(i as int)) =~~= before + (seq![
                    token@,
                ] + spec_split_ws(s@.skip(i as int))));
            }
        }
    }
    proof {
        assert(s@.skip(n as int) =~= Seq::<char>::empty());
        assert(tokens.deep_view() + spec_split_ws(s@.skip(n as int)) =~~= tokens.deep_view());
    }
    tokens
}

/// `spec_join` distributes over appending one more token.
pub proof fn lemma_join_push(ts: Seq<Seq<char>>, t: Seq<char>, sep: char)
    ensures
        spec_join(ts.push(t), sep) == if ts.len() == 0 {
            t
        } else {
            spec_join(ts, sep) + seq![sep] + t
        },
    decreases ts.len(),
{
    if ts.len() == 0 {
        assert(ts.push(t).len() == 1);
        assert(spec_join(ts.push(t), sep) == ts.push(t)[0]);
    } else if ts.len() == 1 {
        assert(ts.push(t).drop_first() =~~= seq![t]);
        assert(spec_join(seq![t], sep) == t);
        assert(ts.push(t)[0] == ts[0]);
        assert(spec_join(ts.push(t), sep) == ts[0] + seq![sep] + t);
    } else {
        assert(ts.push(t).drop_first() =~~= ts.drop_first().push(t));
        lemma_join_push(ts.drop_first(), t, sep);
        assert(spec_join(ts.push(t), sep) == ts[0] + seq![sep] + (spec_join(ts.drop_first(), sep)
            + seq![sep] + t));
        assert(ts[0] + seq![sep] + (spec_join(ts.drop_first(), sep) + seq![sep] + t) =~= (ts[0]
            + seq![sep] + spec_join(ts.drop_first(), sep)) + seq![sep] + t);
    }
}

/// Join the tokens with a single `sep` between neighbours.
pub fn join_with(tokens: &Vec<Vec<char>>, sep: char) -> (out: Vec<char>)
    ensures
        out@ == spec_join(tokens.deep_view(), sep),
{
    let mut out: Vec<char> = Vec::new();
    let mut i: usize = 0;
    proof {
        assert(tokens.deep_view().take(0) =~~= Seq::<Seq<char>>::empty());
    }
    while i < tokens.len()
        invariant
            i <= tokens@.len(),
            out@ == spec_join(tokens.deep_view().take(i as int), sep),
        decreases tokens@.len() - i,
    {
        let ghost before = tokens.deep_view().take(i as int);
        if i > 0 {
            out.push(sep);
        }
        let t = &tokens[i];
        let mut k: usize = 0;
        let ghost mid = out@;
        while k < t.len()
            invariant
                k <= t@.len(),
                out@ == mid + t@.take(k as int),
            decreases t@.len() - k,
        {
            out.push(t[k]);
            k = k + 1;
            proof {
                assert(mid + t@.take(k - 1 as int) + seq![t@[k - 1]] =~= mid + t@.take(k as int));
            }
        }
        i = i + 1;
        proof {
            assert(t@.take(t@.len() as int) =~= t@);
            lemma_join_push(before, t@, sep);
            assert(tokens.deep_view().take(i as int) =~~= before.push(t@));
            if before.len() == 0 {
                assert(mid =~= Seq::<char>::empty());
                assert(out@ =~= t@);
            } else {
                assert(mid =~= spec_join(before, sep) + seq![sep]);
                assert(out@ =~= spec_join(before, sep) + seq![sep] + t@);
            }
        }
    }
    proof {
        assert(tokens.deep_view().take(tokens@.len() as int) =~~= tokens.deep_view());
    }
    out
}

/// First position of `c` in `s`: `Some` of the least index holding `c`,
/// `None` when `c` does not occur.
pub fn find_char(s: &Vec<char>, c: char) -> (r: Option<usize>)
    ensures
        match r {
            Option::Some(i) => i < s@.len() && s@[i as int] == c && forall|j: int|
                0 <= j < i ==> s@[j] != c,
            Option::None => forall|j: int| 0 <= j < s@.len() ==> s@[j] != c,
        },
{
    let mut i: usize = 0;
    while i < s.len()
        invariant
            i <= s@.len(),
            forall|j: int| 0 <= j < i ==> s@[j] != c,
        decreases s@.len() - i,
    {
        if s[i] == c {
            return Option::Some(i);
        }
        i = i + 1;
    }
    Option::None
}

/// Last position of `c` strictly before `end`: `Some` of the greatest such
/// index, `None` when `c` does not occur there.
pub fn rfind_char_before(s: &Vec<char>, c: char, end: usize) -> (r: Option<usize>)
    requires
        end <= s@.len(),
    ensures
        match r {
            Option::Some(i) => i < end && s@[i as int] == c && forall|j: int|
                i < j < end ==> s@[j] != c,
            Option::None => forall|j: int| 0 <= j < end ==> s@[j] != c,
        },
{
    let mut i: usize = end;
    while i > 0
        invariant
            i <= end <= s@.len(),
            forall|j: int| i <= j < end ==> s@[j] != c,
        decreases i,
    {
        i = i - 1;
        if s[i] == c {
            return Option::Some(i);
        }
    }
    Option::None
}

/// Whether `pat` occurs contiguously anywhere in `s`.
pub open spec fn spec_contains(s: Seq<char>, pat: Seq<char>) -> bool {
    exists|i: int|
        0 <= i && i + pat.len() <= s.len() && #[trigger] s.subrange(i, i + pat.len()) =~= pat
}

pub fn contains_sub(s: &Vec<char>, pat: &Vec<char>) -> (r: bool)
    ensures
        r == spec_contains(s@, pat@),
{
    let m = pat.len();
    let n = s.len();
    if m > n {
        return false;
    }
    let mut i: usize = 0;
    while i <= n - m
        invariant
            m <= n,
            n == s@.len(),
            m == pat@.len(),
            i <= n - m + 1,
            forall|j: int| 0 <= j < i ==> !(#[trigger] s@.subrange(j, j + pat@.len()) =~= pat@),
        decreases n - m - i + 1,
    {
        let mut k: usize = 0;
        let mut matched = true;
        while k < m
            invariant
                m <= n,
                n == s@.len(),
                m == pat@.len(),
                i <= n - m,
                k <= m,
                matched ==> forall|q: int| 0 <= q < k ==> s@[i + q] == pat@[q],
                !matched ==> !(s@.subrange(i as int, i + pat@.len()) =~= pat@),
            decreases m - k,
        {
            if s[i + k] != pat[k] {
                proof {
                    assert(s@.subrange(i as int, i + pat@.len())[k as int] != pat@[k as int]);
                }
                matched = false;
                k = m;
            } else {
                k = k + 1;
            }
        }
        if matched {
            proof {
                assert(s@.subrange(i as int, i + pat@.len()) =~= pat@);
            }
            return true;
        }
        i = i + 1;
    }
    false
}

/// Whether `s` begins with `pat`.
pub open spec fn spec_starts_with(s: Seq<char>, pat: Seq<char>) -> bool {
    pat.len() <= s.len() && s.subrange(0, pat.len() as int) =~= pat
}

pub fn starts_with_sub(s: &Vec<char>, pat: &Vec<char>) -> (r: bool)
    ensures
        r == spec_starts_with(s@, pat@),
{
    let m = pat.len();
    if m > s.len() {
        return false;
    }
    let mut k: usize = 0;
    while k < m
        invariant
            m <= s@.len(),
            m == pat@.len(),
            k <= m,
            forall|q: int| 0 <= q < k ==> s@[q] == pat@[q],
        decreases m - k,
    {
        if s[k] != pat[k] {
            proof {
                assert(s@.subrange(0, pat@.len() as int)[k as int] != pat@[k as int]);
            }
            return false;
        }
        k = k + 1;
    }
    proof {
        assert(s@.subrange(0, pat@.len() as int) =~= pat@);
    }
    true
}

/// Number of leading whitespace characters.
pub open spec fn spec_ws_prefix_len(s: Seq<char>) -> int
    decreases s.len(),
{
    if s.len() == 0 {
        0
    } else if spec_is_ws(s[0]) {
        1 + spec_ws_prefix_len(s.drop_first())
    } else {
        0
    }
}

pub proof fn lemma_ws_prefix_len_bounds(s: Seq<char>)
    ensures
        0 <= spec_ws_prefix_len(s) <= s.len(),
        forall|k: int| 0 <= k < spec_ws_prefix_len(s) ==> spec_is_ws(s[k]),
        spec_ws_prefix_len(s) < s.len() ==> !spec_is_ws(s[spec_ws_prefix_len(s)]),
    decreases s.len(),
{
    if s.len() > 0 && spec_is_ws(s[0]) {
        lemma_ws_prefix_len_bounds(s.drop_first());
        assert forall|k: int| 0 <= k < spec_ws_prefix_len(s) implies spec_is_ws(s[k]) by {
            if k > 0 {
                assert(spec_is_ws(s.drop_first()[k - 1]));
            }
        }
    }
}

/// `s` without its leading whitespace.
pub open spec fn spec_trim_start(s: Seq<char>) -> Seq<char> {
    s.skip(spec_ws_prefix_len(s))
}

pub fn trim_start_chars(s: &Vec<char>) -> (out: Vec<char>)
    ensures
        out@ == spec_trim_start(s@),
{
    let n = s.len();
    let mut i: usize = 0;
    while i < n && is_ws(s[i])
        invariant
            i <= n,
            n == s@.len(),
            forall|k: int| 0 <= k < i ==> spec_is_ws(s@[k]),
        decreases n - i,
    {
        i = i + 1;
    }
    proof {
        lemma_ws_scan(s@, i as int);
    }
    let mut out: Vec<char> = Vec::new();
    let mut k: usize = i;
    while k < n
        invariant
            i <= k <= n,
            n == s@.len(),
            out@ =~= s@.subrange(i as int, k as int),
        decreases n - k,
    {
        out.push(s[k]);
        k = k + 1;
        proof {
            assert(out@ =~= s@.subrange(i as int, k as int));
        }
    }
    proof {
        assert(s@.subrange(i as int, n as int) =~= s@.skip(i as int));
    }
    out
}

/// A scan that stops at the first non-whitespace (or the end) has measured
/// the whitespace prefix.
proof fn lemma_ws_scan(s: Seq<char>, j: int)
    requires
        0 <= j <= s.len(),
        forall|k: int| 0 <= k < j ==> spec_is_ws(s[k]),
        j == s.len() || !spec_is_ws(s[j]),
    ensures
        spec_ws_prefix_len(s) == j,
    decreases j,
{
    if j > 0 {
        lemma_ws_scan(s.drop_first(), j - 1);
    }
}

/// Whether `c` is a decimal digit.
pub open spec fn spec_is_digit(c: char) -> bool {
    '0' <= c <= '9'
}

/// Numeric value of a digit character.
pub open spec fn spec_digit_val(c: char) -> int {
    c as int - '0' as int
}

/// Whether every character is a decimal digit.
pub open spec fn spec_all_digits(s: Seq<char>) -> bool {
    forall|k: int| 0 <= k < s.len() ==> spec_is_digit(#[trigger] s[k])
}

/// Value of an all-digit string read in base ten.
pub open spec fn spec_digits_val(s: Seq<char>) -> int
    decreases s.len(),
{
    if s.len() == 0 {
        0
    } else {
        spec_digits_val(s.drop_last()) * 10 + spec_digit_val(s.last())
    }
}

pub proof fn lemma_digits_val_nonneg(s: Seq<char>)
    requires
        spec_all_digits(s),
    ensures
        spec_digits_val(s) >= 0,
    decreases s.len(),
{
    if s.len() > 0 {
        assert forall|k: int| 0 <= k < s.drop_last().len() implies spec_is_digit(
            #[trigger] s.drop_last()[k],
        ) by {
            assert(s.drop_last()[k] == s[k]);
        }
        lemma_digits_val_nonneg(s.drop_last());
        assert(spec_digits_val(s.drop_last()) * 10 >= 0) by (nonlinear_arith)
            requires
                spec_digits_val(s.drop_last()) >= 0,
        ;
    }
}

/// Reading more digits can only keep or grow the value.
pub proof fn lemma_digits_val_prefix(s: Seq<char>, i: int)
    requires
        0 <= i <= s.len(),
        spec_all_digits(s),
    ensures
        spec_digits_val(s.take(i)) <= spec_digits_val(s),
    decreases s.len() - i,
{
    if i < s.len() {
        lemma_digits_val_prefix(s, i + 1);
        let t = s.take(i + 1);
        assert(t.drop_last() =~= s.take(i));
        assert forall|k: int| 0 <= k < s.take(i).len() implies spec_is_digit(
            #[trigger] s.take(i)[k],
        ) by {
            assert(s.take(i)[k] == s[k]);
        }
        lemma_digits_val_nonneg(s.take(i));
        assert(spec_digits_val(s.take(i)) <= spec_digits_val(s.take(i)) * 10) by (nonlinear_arith)
            requires
                spec_digits_val(s.take(i)) >= 0,
        ;
        assert(spec_digit_val(t.last()) >= 0);
    } else {
        assert(s.take(i) =~= s);
    }
}

/// Parse `s[from .. to]` as an unsigned byte: `Some` exactly when the range
/// is non-empty, all digits, and the value fits; `None` otherwise.
pub fn parse_u8_range(s: &Vec<char>, from: usize, to: usize) -> (r: Option<u8>)
    requires
        from <= to <= s@.len(),
    ensures
        ({
            let digits = s@.subrange(from as int, to as int);
            let ok = to > from && spec_all_digits(digits) && spec_digits_val(digits) <= 255;
            match r {
                Option::Some(v) => ok && v == spec_digits_val(digits),
                Option::None => !ok,
            }
        }),
{
    let ghost digits = s@.subrange(from as int, to as int);
    if to == from {
        return Option::None;
    }
    let mut acc: u32 = 0;
    let mut i: usize = from;
    while i < to
        invariant
            from <= i <= to <= s@.len(),
            digits == s@.subrange(from as int, to as int),
            forall|k: int| from <= k < i ==> spec_is_digit(s@[k]),
            acc == spec_digits_val(digits.take(i - from)),
            acc <= 255,
        decreases to - i,
    {
        let c = s[i];
        if c < '0' || c > '9' {
            proof {
                assert(digits[i - from] == s@[i as int]);
                assert(!spec_is_digit(digits[i - from]));
            }
            return Option::None;
        }
        let d: u32 = c as u32 - 48;
        proof {
            assert(digits.take(i + 1 - from).drop_last() =~= digits.take(i - from));
            assert(digits.take(i + 1 - from).last() == s@[i as int]);
        }
        acc = acc * 10 + d;
        i = i + 1;
        if acc > 255 {
            proof {
                if spec_all_digits(digits) {
                    lemma_digits_val_prefix(digits, i - from);
                }
            }
            return Option::None;
        }
    }
    proof {
        assert(digits.take(to - from) =~= digits);
    }
    Option::Some(acc as u8)
}

/// The character for one decimal digit.
pub open spec fn spec_digit_char(d: int) -> char {
    if d == 0 {
        '0'
    } else if d == 1 {
        '1'
    } else if d == 2 {
        '2'
    } else if d == 3 {
        '3'
    } else if d == 4 {
        '4'
    } else if d == 5 {
        '5'
    } else if d == 6 {
        '6'
    } else if d == 7 {
        '7'
    } else if d == 8 {
        '8'
    } else {
        '9'
    }
}

/// Decimal form of a non-negative number, most significant digit first, no
/// leading zeros (a single zero for 0).
pub open spec fn spec_dec(n: int) -> Seq<char>
    decreases n,
{
    if n < 10 {
        seq![spec_digit_char(n)]
    } else {
        spec_dec(n / 10).push(spec_digit_char(n % 10))
    }
}

fn digit_char(d: u32) -> (c: char)
    requires
        d < 10,
    ensures
        c == spec_digit_char(d as int),
{
    if d == 0 {
        '0'
    } else if d == 1 {
        '1'
    } else if d == 2 {
        '2'
    } else if d == 3 {
        '3'
    } else if d == 4 {
        '4'
    } else if d == 5 {
        '5'
    } else if d == 6 {
        '6'
    } else if d == 7 {
        '7'
    } else if d == 8 {
        '8'
    } else {
        '9'
    }
}

/// Decimal form of `n` as characters.
pub fn u32_to_dec(n: u32) -> (out: Vec<char>)
    ensures
        out@ == spec_dec(n as int),
{
    let mut tmp: Vec<char> = Vec::new();
    let mut cur: u32 = n;
    while cur >= 10
        invariant
            spec_dec(n as int) =~= spec_dec(cur as int) + tmp@.reverse(),
        decreases cur,
    {
        let d = cur % 10;
        let ghost before = tmp@;
        tmp.push(digit_char(d));
        proof {
            assert(tmp@.reverse() =~= seq![spec_digit_char(d as int)] + before.reverse());
            assert(spec_dec(cur as int) =~= spec_dec(cur as int / 10).push(
                spec_digit_char(cur as int % 10),
            ));
            assert(spec_dec(cur as int / 10).push(spec_digit_char(cur as int % 10))
                + before.reverse() =~= spec_dec(cur as int / 10) + tmp@.reverse());
        }
        cur = cur / 10;
    }
    let mut out: Vec<char> = Vec::new();
    out.push(digit_char(cur));
    let mut j: usize = tmp.len();
    while j > 0
        invariant
            j <= tmp@.len(),
            out@ =~= seq![spec_digit_char(cur as int)] + tmp@.skip(j as int).reverse(),
        decreases j,
    {
        j = j - 1;
        out.push(tmp[j]);
        proof {
            assert(tmp@.skip(j as int).reverse() =~= tmp@.skip(j + 1).reverse().push(
                tmp@[j as int],
            ));
        }
    }
    proof {
        assert(tmp@.skip(0) =~= tmp@);
        assert(out@ =~= spec_dec(cur as int) + tmp@.reverse());
    }
    out
}

/// Decimal form of `n`, padded on the left with `'0'` to two characters.
pub open spec fn spec_dec_two(n: int) -> Seq<char> {
    if n < 10 {
        seq!['0'] + spec_dec(n)
    } else {
        spec_dec(n)
    }
}

/// Decimal form of `n` padded to two characters.
pub fn u32_to_dec_two(n: u32) -> (out: Vec<char>)
    ensures
        out@ == spec_dec_two(n as int),
{
    let mut out: Vec<char> = Vec::new();
    if n < 10 {
        out.push('0');
        out.push(digit_char(n));
        proof {
            assert(out@ =~= seq!['0'] + spec_dec(n as int));
        }
        out
    } else {
        u32_to_dec(n)
    }
}

/// Index of the first occurrence of `pat` in `s`, `-1` when there is none.
pub open spec fn spec_find_sub(s: Seq<char>, pat: Seq<char>) -> int
    decreases s.len(),
    via spec_find_sub_decreases
{
    if pat.len() > s.len() {
        -1
    } else if s.take(pat.len() as int) == pat {
        0
    } else {
        let r = spec_find_sub(s.drop_first(), pat);
        if r < 0 {
            -1
        } else {
            r + 1
        }
    }
}

#[via_fn]
proof fn spec_find_sub_decreases(s: Seq<char>, pat: Seq<char>) {
    if pat.len() <= s.len() && !(s.take(pat.len() as int) == pat) {
        if pat.len() == 0 {
            assert(s.take(0) =~= pat);
        }
    }
}

/// Whether `pat` occurs in `s` starting at position `k`.
pub open spec fn spec_match_at(s: Seq<char>, pat: Seq<char>, k: int) -> bool {
    s.subrange(k, k + pat.len() as int) =~= pat
}

pub proof fn lemma_find_sub_bounds(s: Seq<char>, pat: Seq<char>)
    ensures
        -1 <= spec_find_sub(s, pat),
        spec_find_sub(s, pat) >= 0 ==> spec_find_sub(s, pat) + pat.len() <= s.len(),
    decreases s.len(),
{
    if pat.len() <= s.len() && !(s.take(pat.len() as int) == pat) {
        if pat.len() == 0 {
            assert(s.take(0) =~= pat);
        }
        lemma_find_sub_bounds(s.drop_first(), pat);
    }
}

/// A scan that found the first match at `j` has measured `spec_find_sub`.
pub proof fn lemma_find_sub_found(s: Seq<char>, pat: Seq<char>, j: int)
    requires
        0 <= j,
        j + pat.len() <= s.len(),
        forall|k: int| 0 <= k < j ==> !#[trigger] spec_match_at(s, pat, k),
        spec_match_at(s, pat, j),
    ensures
        spec_find_sub(s, pat) == j,
    decreases j,
{
    if j == 0 {
        assert(s.take(pat.len() as int) =~= s.subrange(0, pat.len() as int));
    } else {
        assert(!spec_match_at(s, pat, 0));
        assert(s.take(pat.len() as int) =~= s.subrange(0, pat.len() as int));
        if s.take(pat.len() as int) == pat {
            assert(spec_match_at(s, pat, 0));
        }
        let t = s.drop_first();
        assert forall|k: int| 0 <= k < j - 1 implies !#[trigger] spec_match_at(t, pat, k) by {
            assert(t.subrange(k, k + pat.len() as int) =~= s.subrange(
                k + 1,
                k + 1 + pat.len() as int,
            ));
            assert(!spec_match_at(s, pat, k + 1));
        }
        assert(t.subrange(j - 1, j - 1 + pat.len() as int) =~= s.subrange(
            j,
            j + pat.len() as int,
        ));
        assert(spec_match_at(t, pat, j - 1));
        lemma_find_sub_found(t, pat, j - 1);
    }
}

/// A scan that found no match anywhere has shown there is none.
pub proof fn lemma_find_sub_none(s: Seq<char>, pat: Seq<char>)
    requires
        forall|k: int| 0 <= k && k + pat.len() <= s.len() ==> !#[trigger] spec_match_at(s, pat, k),
    ensures
        spec_find_sub(s, pat) == -1,
    decreases s.len(),
{
    if pat.len() <= s.len() {
        assert(!spec_match_at(s, pat, 0));
        assert(s.take(pat.len() as int) =~= s.subrange(0, pat.len() as int));
        if s.take(pat.len() as int) == pat {
            assert(spec_match_at(s, pat, 0));
        }
        let t = s.drop_first();
        assert forall|k: int| 0 <= k && k + pat.len() <= t.len() implies !#[trigger] spec_match_at(
            t,
            pat,
            k,
        ) by {
            assert(t.subrange(k, k + pat.len() as int) =~= s.subrange(
                k + 1,
                k + 1 + pat.len() as int,
            ));
            assert(!spec_match_at(s, pat, k + 1));
        }
        lemma_find_sub_none(t, pat);
    }
}

/// Position of the first occurrence of `pat` in `s`.
pub fn find_sub(s: &Vec<char>, pat: &Vec<char>) -> (r: Option<usize>)
    requires
        pat@.len() >= 1,
    ensures
        match r {
            Option::Some(i) => spec_find_sub(s@, pat@) == i,
            Option::None => spec_find_sub(s@, pat@) == -1,
        },
{
    let m = pat.len();
    let n = s.len();
    if m > n {
        proof {
            lemma_find_sub_none(s@, pat@);
        }
        return Option::None;
    }
    let mut i: usize = 0;
    while i <= n - m
        invariant
            1 <= m <= n,
            n == s@.len(),
            m == pat@.len(),
            i <= n - m + 1,
            forall|j: int| 0 <= j < i ==> !#[trigger] spec_match_at(s@, pat@, j),
        decreases n - m - i + 1,
    {
        let mut k: usize = 0;
        let mut matched = true;
        while k < m
            invariant
                m <= n,
                n == s@.len(),
                m == pat@.len(),
                i <= n - m,
                k <= m,
                matched ==> forall|q: int| 0 <= q < k ==> s@[i + q] == pat@[q],
                !matched ==> !spec_match_at(s@, pat@, i as int),
            decreases m - k,
        {
            if s[i + k] != pat[k] {
                proof {
                    assert(s@.subrange(i as int, i + pat@.len() as int)[k as int] != pat@[
                        k as int
                    ]);
                }
                matched = false;
                k = m;
            } else {
                k = k + 1;
            }
        }
        if matched {
            proof {
                assert(s@.subrange(i as int, i + pat@.len() as int) =~= pat@);
                assert(spec_match_at(s@, pat@, i as int));
                lemma_find_sub_found(s@, pat@, i as int);
            }
            return Option::Some(i);
        }
        i = i + 1;
    }
    proof {
        assert forall|j: int| 0 <= j && j + pat@.len() <= s@.len() implies !#[trigger]
            spec_match_at(s@, pat@, j) by {}
        lemma_find_sub_none(s@, pat@);
    }
    Option::None
}

/// The segments of `s` between newline characters, in order: one segment
/// more than there are newlines, so a trailing newline yields a final empty
/// segment and an empty text yields one empty segment.
pub open spec fn spec_line_split(s: Seq<char>) -> Seq<Seq<char>>
    decreases s.len(),
    via spec_line_split_decreases
{
    let i = spec_find_sub(s, seq!['\n']);
    if i < 0 {
        seq![s]
    } else {
        seq![s.take(i)] + spec_line_split(s.skip(i + 1))
    }
}

#[via_fn]
proof fn spec_line_split_decreases(s: Seq<char>) {
    lemma_find_sub_bounds(s, seq!['\n']);
}

/// A text always splits into at least one segment.
pub proof fn lemma_line_split_len(s: Seq<char>)
    ensures
        spec_line_split(s).len() >= 1,
{
}

/// The characters `v[from .. to]` as a vector.
pub fn subvec(v: &Vec<char>, from: usize, to: usize) -> (out: Vec<char>)
    requires
        from <= to <= v@.len(),
    ensures
        out@ == v@.subrange(from as int, to as int),
{
    let mut out: Vec<char> = Vec::new();
    let mut k: usize = from;
    while k < to
        invariant
            from <= k <= to <= v@.len(),
            out@ =~= v@.subrange(from as int, k as int),
        decreases to - k,
    {
        out.push(v[k]);
        k = k + 1;
        proof {
            assert(out@ =~= v@.subrange(from as int, k as int));
        }
    }
    proof {
        assert(out@ =~= v@.subrange(from as int, to as int));
    }
    out
}

/// Split `v` at newline characters.
pub fn split_lines(v: &Vec<char>) -> (lines: Vec<Vec<char>>)
    ensures
        lines.deep_view() == spec_line_split(v@),
{
    let mut lines: Vec<Vec<char>> = Vec::new();
    let mut rest: Vec<char> = subvec(v, 0, v.len());
    let mut nl: Vec<char> = Vec::new();
    nl.push('\n');
    proof {
        assert(nl@ =~= seq!['\n']);
        assert(rest@ =~= v@);
        assert(lines.deep_view() + spec_line_split(rest@) =~~= spec_line_split(v@));
    }
    loop
        invariant
            nl@ =~= seq!['\n'],
            lines.deep_view() + spec_line_split(rest@) =~~= spec_line_split(v@),
        decreases rest@.len(),
    {
        match find_sub(&rest, &nl) {
            Option::Some(i) => {
                proof {
                    lemma_find_sub_bounds(rest@, nl@);
                    assert(i + 1 <= rest@.len());
                }
                let seg = subvec(&rest, 0, i);
                let ghost before = lines.deep_view();
                let ghost old_rest = rest@;
                lines.push(seg);
                let rest_len = rest.len();
                rest = subvec(&rest, i + 1, rest_len);
                proof {
                    assert(seg@ =~= old_rest.take(i as int));
                    assert(rest@ =~= old_rest.skip(i + 1));
                    assert(lines.deep_view() =~~= before.push(seg@));
                    assert(spec_line_split(old_rest) =~~= seq![old_rest.take(i as int)]
                        + spec_line_split(old_rest.skip(i + 1)));
                    assert(lines.deep_view() + spec_line_split(rest@) =~~= before + (seq![seg@]
                        + spec_line_split(rest@)));
                }
            },
            Option::None => {
                lines.push(rest);
                proof {
                    assert(lines.deep_view() =~~= spec_line_split(v@));
                }
                return lines;
            },
        }
    }
}

} // verus!
