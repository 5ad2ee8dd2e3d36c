use vstd::prelude::*;
use vstd::string::StrSliceExecFns;

verus! {

/// Relies on `String::push`: the character is appended at the end.
pub assume_specification[ String::push ](s: &mut String, ch: char)
    ensures
        final(s)@ == old(s)@.push(ch),
;

/// Relies on `String::push_str`: the characters of `t` are appended at the end.
pub assume_specification[ String::push_str ](s: &mut String, t: &str)
    ensures
        final(s)@ == old(s)@ + t@,
;

/// The decimal digit of `d` (below 10).
pub open spec fn decimal_digit(d: int) -> char {
    seq!['0', '1', '2', '3', '4', '5', '6', '7', '8', '9'][d]
}

/// `n` written in decimal, without leading zeros.
pub open spec fn decimal_of(n: nat) -> Seq<char>
    decreases n,
{
    if n < 10 {
        seq![decimal_digit(n as int)]
    } else {
        decimal_of(n / 10).push(decimal_digit((n % 10) as int))
    }
}

fn digit_char(d: u64) -> (c: char)
    requires
        d < 10,
    ensures
        c == decimal_digit(d as int),
{
    let digits = ['0', '1', '2', '3', '4', '5', '6', '7', '8', '9'];
    let c = digits[d as usize];
    assert(digits@ == seq!['0', '1', '2', '3', '4', '5', '6', '7', '8', '9']);
    c
}

/// Appends `n`, written in decimal, to `out`.
pub fn push_decimal(out: &mut String, n: u64)
    ensures
        final(out)@ == old(out)@ + decimal_of(n as nat),
    decreases n,
{
    if n >= 10 {
        push_decimal(out, n / 10);
    }
    out.push(digit_char(n % 10));
    assert(final(out)@ =~= old(out)@ + decimal_of(n as nat));
}

/// The name under which chunk `index` is kept in its upload's staging area.
pub fn chunk_file_name(index: usize) -> (r: String)
    ensures
        r@ == "chunk_"@ + decimal_of(index as nat),
{
    let mut r = String::new();
    r.push_str("chunk_");
    push_decimal(&mut r, index as u64);
    r
}

/// The names of chunks `0..total_chunks`, in the ascending order in which
/// they are assembled.
pub fn chunk_file_names(total_chunks: usize) -> (r: Vec<String>)
    ensures
        r@.len() == total_chunks,
        forall|i: int| 0 <= i < total_chunks ==> #[trigger] r@[i]@ == "chunk_"@ + decimal_of(i as nat),
{
    let mut r: Vec<String> = Vec::new();
    let mut i: usize = 0;
    while i < total_chunks
        invariant
            i <= total_chunks,
            r@.len() == i,
            forall|j: int| 0 <= j < i ==> #[trigger] r@[j]@ == "chunk_"@ + decimal_of(j as nat),
        decreases total_chunks - i,
    {
        r.push(chunk_file_name(i));
        i = i + 1;
    }
    r
}

proof fn lemma_decimal_len(n: nat)
    ensures
        decimal_of(n).len() >= 1,
        n >= 10 ==> decimal_of(n).len() >= 2,
    decreases n,
{
    if n >= 10 {
        lemma_decimal_len(n / 10);
    }
}

proof fn lemma_digit_injective(x: int, y: int)
    requires
        0 <= x < 10,
        0 <= y < 10,
        decimal_digit(x) == decimal_digit(y),
    ensures
        x == y,
{
    let d = seq!['0', '1', '2', '3', '4', '5', '6', '7', '8', '9'];
    assert(d[0] == '0' && d[1] == '1' && d[2] == '2' && d[3] == '3' && d[4] == '4');
    assert(d[5] == '5' && d[6] == '6' && d[7] == '7' && d[8] == '8' && d[9] == '9');
    assert(x == 0 || x == 1 || x == 2 || x == 3 || x == 4 || x == 5 || x == 6 || x == 7 || x == 8 || x == 9);
    assert(y == 0 || y == 1 || y == 2 || y == 3 || y == 4 || y == 5 || y == 6 || y == 7 || y == 8 || y == 9);
}

/// Distinct numbers are written differently.
pub proof fn lemma_decimal_injective(a: nat, b: nat)
    requires
        decimal_of(a) == decimal_of(b),
    ensures
        a == b,
    decreases a,
{
    lemma_decimal_len(a);
    lemma_decimal_len(b);
    if a < 10 && b < 10 {
        assert(decimal_of(a) == seq![decimal_digit(a as int)]);
        assert(decimal_of(b) == seq![decimal_digit(b as int)]);
        assert(seq![decimal_digit(a as int)][0] == decimal_digit(a as int));
        assert(seq![decimal_digit(b as int)][0] == decimal_digit(b as int));
        assert(decimal_of(a)[0] == decimal_of(b)[0]);
        lemma_digit_injective(a as int, b as int);
    } else if a >= 10 && b >= 10 {
        let da = decimal_of(a / 10);
        let db = decimal_of(b / 10);
        assert(decimal_of(a).drop_last() =~= da);
        assert(decimal_of(b).drop_last() =~= db);
        lemma_decimal_injective(a / 10, b / 10);
        assert(decimal_of(a) == da.push(decimal_digit((a % 10) as int)));
        assert(decimal_of(b) == db.push(decimal_digit((b % 10) as int)));
        assert(decimal_of(a).last() == decimal_digit((a % 10) as int));
        assert(decimal_of(b).last() == decimal_digit((b % 10) as int));
        lemma_digit_injective((a % 10) as int, (b % 10) as int);
        assert(a == 10 * (a / 10) + a % 10);
        assert(b == 10 * (b / 10) + b % 10);
    } else {
        assert(decimal_of(a).len() != decimal_of(b).len());
    }
}

/// Distinct chunk indices are kept under distinct names, so one chunk never
/// overwrites another.
pub proof fn lemma_chunk_names_distinct(a: usize, b: usize)
    requires
        a != b,
    ensures
        "chunk_"@ + decimal_of(a as nat) != "chunk_"@ + decimal_of(b as nat),
{
    let p = "chunk_"@;
    if p + decimal_of(a as nat) == p + decimal_of(b as nat) {
        assert((p + decimal_of(a as nat)).subrange(p.len() as int, (p + decimal_of(a as nat)).len() as int) =~= decimal_of(a as nat));
        assert((p + decimal_of(b as nat)).subrange(p.len() as int, (p + decimal_of(b as nat)).len() as int) =~= decimal_of(b as nat));
        lemma_decimal_injective(a as nat, b as nat);
    }
}

/// The characters a stored filename may hold: ASCII letters and digits, `-`, `_` and `.`.
pub open spec fn is_name_char(c: char) -> bool {
    ('a' <= c && c <= 'z') || ('A' <= c && c <= 'Z') || ('0' <= c && c <= '9') || c == '-'
        || c == '_' || c == '.'
}

/// A path separator on any platform this server may run on.
pub open spec fn is_separator(c: char) -> bool {
    c == '/' || c == '\\'
}

/// `s` without its leading run of dots.
pub open spec fn strip_leading_dots(s: Seq<char>) -> Seq<char>
    decreases s.len(),
{
    if s.len() > 0 && s[0] == '.' {
        strip_leading_dots(s.drop_first())
    } else {
        s
    }
}

/// The name characters of `s`, in their order.
pub open spec fn keep_name_chars(s: Seq<char>) -> Seq<char> {
    s.filter(|c: char| is_name_char(c))
}

/// The sanitized form of a client-supplied filename: every character outside
/// `is_name_char` is dropped, then the leading dots are removed.
pub open spec fn sanitized(s: Seq<char>) -> Seq<char> {
    strip_leading_dots(keep_name_chars(s))
}

/// A single path segment that stays inside the directory it is joined to:
/// only name characters, and no leading dot (so neither `.` nor `..`).
pub open spec fn is_safe_name(s: Seq<char>) -> bool {
    &&& forall|j: int| 0 <= j < s.len() ==> is_name_char(#[trigger] s[j])
    &&& (s.len() > 0 ==> s[0] != '.')
}

proof fn lemma_strip_push(p: Seq<char>, c: char)
    ensures
        strip_leading_dots(p.push(c)) == (if strip_leading_dots(p).len() == 0 && c == '.' {
            Seq::<char>::empty()
        } else {
            strip_leading_dots(p).push(c)
        }),
    decreases p.len(),
{
    if p.len() > 0 && p[0] == '.' {
        assert(p.push(c).drop_first() =~= p.drop_first().push(c));
        lemma_strip_push(p.drop_first(), c);
    } else if p.len() == 0 {
        assert(p.push(c).drop_first() =~= Seq::<char>::empty());
        assert(p.push(c)[0] == c);
        assert(strip_leading_dots(Seq::<char>::empty()) == Seq::<char>::empty());
        assert(strip_leading_dots(p) == p);
        assert(p.push(c) =~= Seq::<char>::empty().push(c));
    } else {
        assert(p.push(c)[0] == p[0]);
    }
}

proof fn lemma_strip_suffix(s: Seq<char>)
    ensures
        strip_leading_dots(s).len() <= s.len(),
        strip_leading_dots(s) =~= s.subrange(s.len() - strip_leading_dots(s).len(), s.len() as int),
        strip_leading_dots(s).len() > 0 ==> strip_leading_dots(s)[0] != '.',
    decreases s.len(),
{
    if s.len() > 0 && s[0] == '.' {
        lemma_strip_suffix(s.drop_first());
    }
}

proof fn lemma_filter_keeps_name_chars(s: Seq<char>)
    ensures
        forall|j: int|
            0 <= j < keep_name_chars(s).len() ==> is_name_char(#[trigger] keep_name_chars(s)[j]),
{
    broadcast use vstd::seq_lib::group_filter_ensures;

}

proof fn lemma_filter_of_name_chars(s: Seq<char>)
    requires
        forall|j: int| 0 <= j < s.len() ==> is_name_char(#[trigger] s[j]),
    ensures
        keep_name_chars(s) == s,
    decreases s.len(),
{
    reveal(Seq::filter);
    if s.len() > 0 {
        assert(is_name_char(s[s.len() - 1]));
        lemma_filter_of_name_chars(s.drop_last());
        assert(s.drop_last().push(s.last()) =~= s);
    }
}

/// Whatever the input, the sanitized name is one safe path segment: it holds
/// no separator, only name characters, and does not begin with a dot, so it is
/// neither `.` nor `..` and, joined to a directory, names an entry inside it.
pub proof fn lemma_sanitized_is_safe(s: Seq<char>)
    ensures
        is_safe_name(sanitized(s)),
        forall|j: int| 0 <= j < sanitized(s).len() ==> !is_separator(#[trigger] sanitized(s)[j]),
        sanitized(s) != seq!['.'],
        sanitized(s) != seq!['.', '.'],
{
    let f = keep_name_chars(s);
    lemma_filter_keeps_name_chars(s);
    lemma_strip_suffix(f);
    let r = sanitized(s);
    assert forall|j: int| 0 <= j < r.len() implies is_name_char(#[trigger] r[j]) by {
        assert(r[j] == f[f.len() - r.len() + j]);
    }
    assert(r.len() > 0 ==> r[0] != '.');
    assert(seq!['.'][0] == '.');
    assert(seq!['.', '.'][0] == '.');
}

/// A safe name is left as it is.
pub proof fn lemma_sanitized_fixes_safe(s: Seq<char>)
    requires
        is_safe_name(s),
    ensures
        sanitized(s) == s,
{
    lemma_filter_of_name_chars(s);
}

/// Sanitizing twice gives the same name as sanitizing once.
pub proof fn lemma_sanitize_idempotent(s: Seq<char>)
    ensures
        sanitized(sanitized(s)) == sanitized(s),
{
    lemma_sanitized_is_safe(s);
    lemma_sanitized_fixes_safe(sanitized(s));
}

/// Maps any client-supplied filename to a single safe path segment: characters
/// other than ASCII letters, digits, `-`, `_` and `.` are dropped, and so is the
/// leading run of dots.
pub fn sanitize_filename(filename: &str) -> (r: String)
    ensures
        r@ == sanitized(filename@),
{
    let n = filename.unicode_len();
    let mut out = String::new();
    let mut i: usize = 0;
    while i < n
        invariant
            n == filename@.len(),
            i <= n,
            out@ == strip_leading_dots(keep_name_chars(filename@.subrange(0, i as int))),
        decreases n - i,
    {
        let c = filename.get_char(i);
        let ghost prev = filename@.subrange(0, i as int);
        let ghost next = filename@.subrange(0, i as int + 1);
        proof {
            assert(next.drop_last() =~= prev);
            assert(next.last() == c);
            reveal(Seq::filter);
            lemma_strip_push(keep_name_chars(prev), c);
        }
        let keep = ('a' <= c && c <= 'z') || ('A' <= c && c <= 'Z') || ('0' <= c && c <= '9')
            || c == '-' || c == '_' || c == '.';
        if keep && !(c == '.' && out.unicode_len() == 0) {
            out.push(c);
        }
        i = i + 1;
    }
    proof {
        assert(filename@.subrange(0, n as int) =~= filename@);
    }
    out
}

} // verus!
