use vstd::prelude::*;
use vstd::string::StrSliceExecFns;

verus! {

/// Whether `c` is a decimal digit.
pub open spec fn is_digit(c: char) -> bool {
    '0' <= c && c <= '9'
}

/// The value of a run of decimal digits, most significant first.
pub open spec fn digits_value(s: Seq<char>) -> int
    decreases s.len(),
{
    if s.len() == 0 {
        0
    } else {
        digits_value(s.drop_last()) * 10 + (s.last() as int - '0' as int)
    }
}

/// `s` without one leading `+`, if it has one.
pub open spec fn after_plus(s: Seq<char>) -> Seq<char> {
    if s.len() > 0 && s[0] == '+' {
        s.drop_first()
    } else {
        s
    }
}

/// Whether every character of `s` is a decimal digit.
pub open spec fn all_digits(s: Seq<char>) -> bool {
    forall|j: int| 0 <= j < s.len() ==> is_digit(#[trigger] s[j])
}

/// The number that `s` writes, when it is an optional `+` followed by at least
/// one decimal digit and the number is at most `max`: the text accepted for
/// unsigned numbers by `str::parse`.
pub open spec fn number_setting(s: Seq<char>, max: int) -> Option<int> {
    if after_plus(s).len() > 0 && all_digits(after_plus(s)) && digits_value(after_plus(s)) <= max {
        Some(digits_value(after_plus(s)))
    } else {
        None
    }
}

proof fn lemma_non_digit_rejects(s: Seq<char>, max: int, d: Seq<char>, k: int)
    requires
        d == after_plus(s),
        0 <= k < d.len(),
        !is_digit(d[k]),
    ensures
        number_setting(s, max) is None,
{
    assert(!all_digits(d));
}

proof fn lemma_digits_value_nonneg(s: Seq<char>)
    requires
        forall|j: int| 0 <= j < s.len() ==> is_digit(#[trigger] s[j]),
    ensures
        digits_value(s) >= 0,
    decreases s.len(),
{
    if s.len() > 0 {
        lemma_digits_value_nonneg(s.drop_last());
    }
}

/// Reads an unsigned decimal number of at most `max`, as `str::parse` does for
/// unsigned integers: an optional `+`, then one or more digits.
pub fn parse_number(s: &str, max: u64) -> (r: Option<u64>)
    ensures
        r matches Some(n) ==> number_setting(s@, max as int) == Some(n as int),
        r is None ==> number_setting(s@, max as int) is None,
{
    let n = s.unicode_len();
    let mut start: usize = 0;
    if n > 0 && s.get_char(0) == '+' {
        start = 1;
    }
    let ghost d = after_plus(s@);
    assert(d =~= s@.subrange(start as int, n as int));
    if start == n {
        return None;
    }
    let mut acc: u64 = 0;
    let mut too_big = false;
    let mut i: usize = start;
    while i < n
        invariant
            n == s@.len(),
            start <= i <= n,
            d == s@.subrange(start as int, n as int),
            d == after_plus(s@),
            forall|j: int| start <= j < i ==> is_digit(#[trigger] s@[j]),
            too_big <==> digits_value(s@.subrange(start as int, i as int)) > max,
            !too_big ==> acc == digits_value(s@.subrange(start as int, i as int)),
        decreases n - i,
    {
        let c = s.get_char(i);
        if !('0' <= c && c <= '9') {
            assert(d[i - start] == s@[i as int]);
            assert(!is_digit(d[i - start]));
            proof {
                lemma_non_digit_rejects(s@, max as int, d, i - start);
            }
            return None;
        }
        let ghost prev = s@.subrange(start as int, i as int);
        let ghost next = s@.subrange(start as int, i as int + 1);
        proof {
            assert(next.drop_last() =~= prev);
            assert(forall|j: int| 0 <= j < prev.len() ==> is_digit(#[trigger] prev[j])) by {
                assert forall|j: int| 0 <= j < prev.len() implies is_digit(#[trigger] prev[j]) by {
                    assert(prev[j] == s@[start + j]);
                }
            }
            lemma_digits_value_nonneg(prev);
        }
        let digit = (c as u32 - '0' as u32) as u64;
        if !too_big {
            if digit > max || acc > (max - digit) / 10 {
                too_big = true;
            } else {
                assert(acc * 10 + digit <= max) by (nonlinear_arith)
                    requires acc <= (max - digit) / 10, digit <= max;
                acc = acc * 10 + digit;
            }
            proof {
                if too_big {
                    assert(acc * 10 + digit > max) by (nonlinear_arith)
                        requires digit > max || acc > (max - digit) / 10, digit <= 9;
                }
            }
        }
        i = i + 1;
    }
    assert(s@.subrange(start as int, n as int) == d);
    if too_big {
        None
    } else {
        Some(acc)
    }
}

/// Whether `c` is white space, as `char::is_whitespace` has it (the Unicode
/// `White_Space` property).
pub open spec fn is_white(c: char) -> bool {
    ('\u{9}' <= c && c <= '\u{d}') || c == ' ' || c == '\u{85}' || c == '\u{a0}' || c == '\u{1680}'
        || ('\u{2000}' <= c && c <= '\u{200a}') || c == '\u{2028}' || c == '\u{2029}' || c
        == '\u{202f}' || c == '\u{205f}' || c == '\u{3000}'
}

fn is_white_char(c: char) -> (r: bool)
    ensures
        r == is_white(c),
{
    ('\u{9}' <= c && c <= '\u{d}') || c == ' ' || c == '\u{85}' || c == '\u{a0}' || c == '\u{1680}'
        || ('\u{2000}' <= c && c <= '\u{200a}') || c == '\u{2028}' || c == '\u{2029}' || c
        == '\u{202f}' || c == '\u{205f}' || c == '\u{3000}'
}

/// The pieces of `s` between commas, in order; `s` without commas is one piece.
pub open spec fn comma_pieces(s: Seq<char>) -> Seq<Seq<char>>
    decreases s.len(),
{
    if s.len() == 0 {
        seq![Seq::empty()]
    } else {
        let p = comma_pieces(s.drop_last());
        if s.last() == ',' {
            p.push(Seq::empty())
        } else {
            p.update(p.len() - 1, p.last().push(s.last()))
        }
    }
}

/// `s` without its leading white space.
pub open spec fn trim_start(s: Seq<char>) -> Seq<char>
    decreases s.len(),
{
    if s.len() > 0 && is_white(s[0]) {
        trim_start(s.drop_first())
    } else {
        s
    }
}

/// `s` without its trailing white space.
pub open spec fn trim_end(s: Seq<char>) -> Seq<char>
    decreases s.len(),
{
    if s.len() > 0 && is_white(s.last()) {
        trim_end(s.drop_last())
    } else {
        s
    }
}

/// `s` without white space at either end, as `str::trim` gives it.
pub open spec fn trimmed(s: Seq<char>) -> Seq<char> {
    trim_end(trim_start(s))
}

/// The trimmed pieces that are not empty, in order.
pub open spec fn nonempty_trimmed(pieces: Seq<Seq<char>>) -> Seq<Seq<char>>
    decreases pieces.len(),
{
    if pieces.len() == 0 {
        Seq::empty()
    } else {
        let r = nonempty_trimmed(pieces.drop_last());
        if trimmed(pieces.last()).len() > 0 {
            r.push(trimmed(pieces.last()))
        } else {
            r
        }
    }
}

/// The origins of a comma-separated list: each entry trimmed, empty ones left out.
pub open spec fn origin_list(s: Seq<char>) -> Seq<Seq<char>> {
    nonempty_trimmed(comma_pieces(s))
}

proof fn lemma_trim_start_suffix(s: Seq<char>, k: int)
    requires
        0 <= k <= s.len(),
        forall|j: int| 0 <= j < k ==> is_white(#[trigger] s[j]),
    ensures
        trim_start(s) == trim_start(s.subrange(k, s.len() as int)),
    decreases k,
{
    if k > 0 {
        assert(s.drop_first().subrange(k - 1, s.drop_first().len() as int) =~= s.subrange(k, s.len() as int));
        lemma_trim_start_suffix(s.drop_first(), k - 1);
    } else {
        assert(s.subrange(0, s.len() as int) =~= s);
    }
}

proof fn lemma_trim_end_prefix(s: Seq<char>, k: int)
    requires
        0 <= k <= s.len(),
        forall|j: int| k <= j < s.len() ==> is_white(#[trigger] s[j]),
    ensures
        trim_end(s) == trim_end(s.subrange(0, k)),
    decreases s.len() - k,
{
    if k < s.len() {
        assert(s.drop_last().subrange(0, k) =~= s.subrange(0, k));
        lemma_trim_end_prefix(s.drop_last(), k);
    } else {
        assert(s.subrange(0, k) =~= s);
    }
}

/// `s` without white space at either end.
pub fn trim_text(s: &str) -> (r: String)
    ensures
        r@ == trimmed(s@),
{
    let n = s.unicode_len();
    let mut start: usize = 0;
    while start < n && is_white_char(s.get_char(start))
        invariant
            n == s@.len(),
            start <= n,
            forall|j: int| 0 <= j < start ==> is_white(#[trigger] s@[j]),
        decreases n - start,
    {
        start = start + 1;
    }
    proof {
        lemma_trim_start_suffix(s@, start as int);
    }
    let ghost rest = s@.subrange(start as int, n as int);
    assert(start == n || !is_white(rest[0]));
    assert(trim_start(rest) == rest);
    let mut end: usize = n;
    while end > start && is_white_char(s.get_char(end - 1))
        invariant
            n == s@.len(),
            start <= end <= n,
            forall|j: int| end <= j < n ==> is_white(#[trigger] s@[j]),
        decreases end,
    {
        end = end - 1;
    }
    proof {
        lemma_trim_end_prefix(rest, end - start);
        let kept = rest.subrange(0, end - start);
        assert(kept =~= s@.subrange(start as int, end as int));
        assert(kept.len() == 0 || !is_white(kept.last()));
        assert(trim_end(kept) == kept);
    }
    s.substring_char(start, end).to_owned()
}

/// The allowed origins of a comma-separated list: each entry is trimmed and
/// the empty ones are left out.
pub fn parse_origin_list(s: &str) -> (r: Vec<String>)
    ensures
        r@.map_values(|o: String| o@) == origin_list(s@),
{
    let n = s.unicode_len();
    let mut out: Vec<String> = Vec::new();
    let mut current = String::new();
    let mut i: usize = 0;
    proof {
        assert(s@.subrange(0, 0) =~= Seq::<char>::empty());
        assert(comma_pieces(Seq::<char>::empty()).drop_last() =~= Seq::<Seq<char>>::empty());
        assert(out@.map_values(|o: String| o@) =~= Seq::<Seq<char>>::empty());
    }
    while i < n
        invariant
            n == s@.len(),
            i <= n,
            comma_pieces(s@.subrange(0, i as int)).len() > 0,
            current@ == comma_pieces(s@.subrange(0, i as int)).last(),
            out@.map_values(|o: String| o@) == nonempty_trimmed(
                comma_pieces(s@.subrange(0, i as int)).drop_last(),
            ),
        decreases n - i,
    {
        let c = s.get_char(i);
        let ghost prev = s@.subrange(0, i as int);
        let ghost next = s@.subrange(0, i as int + 1);
        let ghost pp = comma_pieces(prev);
        proof {
            assert(next.drop_last() =~= prev);
            assert(next.last() == c);
        }
        if c == ',' {
            let piece = trim_text(current.as_str());
            proof {
                assert(comma_pieces(next) == pp.push(Seq::<char>::empty()));
                assert(pp.push(Seq::<char>::empty()).drop_last() =~= pp);
                assert(pp.drop_last().push(pp.last()) =~= pp);
            }
            if piece.unicode_len() > 0 {
                out.push(piece);
                assert(out@.map_values(|o: String| o@) =~= nonempty_trimmed(pp));
            }
            current = String::new();
        } else {
            current.push(c);
            proof {
                assert(comma_pieces(next) == pp.update(pp.len() - 1, pp.last().push(c)));
                assert(pp.update(pp.len() - 1, pp.last().push(c)).drop_last() =~= pp.drop_last());
            }
        }
        i = i + 1;
    }
    let piece = trim_text(current.as_str());
    let ghost pp = comma_pieces(s@.subrange(0, n as int));
    proof {
        assert(s@.subrange(0, n as int) =~= s@);
        assert(pp.drop_last().push(pp.last()) =~= pp);
    }
    if piece.unicode_len() > 0 {
        out.push(piece);
        assert(out@.map_values(|o: String| o@) =~= nonempty_trimmed(pp));
    }
    out
}

} // verus!
