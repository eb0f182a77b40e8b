//! Character-level text handling shared by the parsers of this crate:
//! whitespace trimming, splitting, and decimal numbers.
use vstd::prelude::*;

verus! {

/// Whether `c` has the Unicode `White_Space` property, the set that
/// `char::is_whitespace` (and so `str::trim` and `str::split_whitespace`) uses.
pub open spec fn is_white(c: char) -> bool {
    let n = c as u32;
    ||| 0x9 <= n <= 0xd
    ||| n == 0x20
    ||| n == 0x85
    ||| n == 0xa0
    ||| n == 0x1680
    ||| 0x2000 <= n <= 0x200a
    ||| n == 0x2028
    ||| n == 0x2029
    ||| n == 0x202f
    ||| n == 0x205f
    ||| n == 0x3000
}

/// `s` without its leading whitespace.
pub open spec fn trim_start(s: Seq<char>) -> Seq<char>
    decreases s.len(),
{
    if s.len() > 0 && is_white(s[0]) {
        trim_start(s.drop_first())
    } else {
        s
    }
}

/// `s` without its trailing whitespace.
pub open spec fn trim_end(s: Seq<char>) -> Seq<char>
    decreases s.len(),
{
    if s.len() > 0 && is_white(s.last()) {
        trim_end(s.drop_last())
    } else {
        s
    }
}

/// `s` without leading and trailing whitespace.
pub open spec fn trim(s: Seq<char>) -> Seq<char> {
    trim_end(trim_start(s))
}

/// Number of characters before the first whitespace character of `s`.
pub open spec fn word_len(s: Seq<char>) -> nat
    decreases s.len(),
{
    if s.len() > 0 && !is_white(s[0]) {
        1 + word_len(s.drop_first())
    } else {
        0
    }
}

/// The maximal runs of non-whitespace characters of `s`, in order.
pub open spec fn words(s: Seq<char>) -> Seq<Seq<char>>
    decreases s.len(),
{
    if s.len() == 0 {
        seq![]
    } else if is_white(s[0]) {
        words(s.drop_first())
    } else {
        proof {
            lemma_word_len_bound(s);
        }
        seq![s.take(word_len(s) as int)] + words(s.skip(word_len(s) as int))
    }
}

/// The pieces of `s` between occurrences of `sep`; there is always at least one.
pub open spec fn split_on(s: Seq<char>, sep: char) -> Seq<Seq<char>>
    decreases s.len(),
{
    if s.len() == 0 {
        seq![seq![]]
    } else {
        let p = split_on(s.drop_last(), sep);
        if s.last() == sep {
            p.push(seq![])
        } else {
            p.update(p.len() - 1, p.last().push(s.last()))
        }
    }
}

/// Whether `s` begins with `p`.
pub open spec fn has_prefix(s: Seq<char>, p: Seq<char>) -> bool {
    p.len() <= s.len() && s.take(p.len() as int) == p
}

pub open spec fn is_digit(c: char) -> bool {
    '0' as u32 <= c as u32 <= '9' as u32
}

pub open spec fn digit_value(c: char) -> nat {
    (c as u32 - '0' as u32) as nat
}

pub open spec fn all_digits(d: Seq<char>) -> bool {
    forall|i: int| 0 <= i < d.len() ==> #[trigger] is_digit(d[i])
}

/// The number that the decimal digits `d` write.
pub open spec fn digits_value(d: Seq<char>) -> nat
    decreases d.len(),
{
    if d.len() == 0 {
        0
    } else {
        digits_value(d.drop_last()) * 10 + digit_value(d.last())
    }
}

/// The value of `s` read as an unsigned decimal number the way `u64::from_str`
/// reads it: an optional `+`, then one or more ASCII digits, nothing else.
pub open spec fn unsigned_value(s: Seq<char>) -> Option<nat> {
    let d = if s.len() > 0 && s[0] == '+' {
        s.drop_first()
    } else {
        s
    };
    if d.len() > 0 && all_digits(d) {
        Some(digits_value(d))
    } else {
        None
    }
}

/// `s` as a `u64`, `None` where `u64::from_str` fails.
pub open spec fn parse_u64_spec(s: Seq<char>) -> Option<u64> {
    match unsigned_value(s) {
        Some(n) => if n <= u64::MAX {
            Some(n as u64)
        } else {
            None
        },
        None => None,
    }
}

/// `s` as a `u32`, `None` where `u32::from_str` fails.
pub open spec fn parse_u32_spec(s: Seq<char>) -> Option<u32> {
    match unsigned_value(s) {
        Some(n) => if n <= u32::MAX {
            Some(n as u32)
        } else {
            None
        },
        None => None,
    }
}

pub open spec fn digit_char(d: nat) -> char {
    (d + '0' as u32) as char
}

/// The shortest decimal writing of `n`, as `format!("{}", n)` renders it.
pub open spec fn decimal(n: nat) -> Seq<char>
    decreases n,
{
    if n < 10 {
        seq![digit_char(n)]
    } else {
        decimal(n / 10).push(digit_char(n % 10))
    }
}

/// The decimal writing of a signed number, with a `-` before a negative one.
pub open spec fn signed_decimal(n: int) -> Seq<char> {
    if n < 0 {
        seq!['-'] + decimal((-n) as nat)
    } else {
        decimal(n as nat)
    }
}

pub proof fn lemma_word_len_bound(s: Seq<char>)
    ensures
        word_len(s) <= s.len(),
        s.len() > 0 && !is_white(s[0]) ==> word_len(s) >= 1,
    decreases s.len(),
{
    if s.len() > 0 && !is_white(s[0]) {
        lemma_word_len_bound(s.drop_first());
    }
}

pub proof fn lemma_split_on_nonempty(s: Seq<char>, sep: char)
    ensures
        split_on(s, sep).len() >= 1,
    decreases s.len(),
{
    if s.len() > 0 {
        lemma_split_on_nonempty(s.drop_last(), sep);
    }
}

proof fn lemma_digits_value_prefix(d: Seq<char>, i: int)
    requires
        0 <= i <= d.len(),
    ensures
        digits_value(d.take(i)) <= digits_value(d),
    decreases d.len() - i,
{
    if i < d.len() {
        lemma_digits_value_prefix(d, i + 1);
        assert(d.take(i + 1).drop_last() =~= d.take(i));
    } else {
        assert(d.take(i) =~= d);
    }
}

proof fn lemma_decimal_digits(n: nat)
    ensures
        decimal(n).len() >= 1,
        all_digits(decimal(n)),
        digits_value(decimal(n)) == n,
    decreases n,
{
    let k = n % 10;
    assert(digit_value(digit_char(k)) == k);
    if n < 10 {
        assert(decimal(n).drop_last() =~= Seq::<char>::empty());
        assert(digits_value(Seq::<char>::empty()) == 0);
    } else {
        lemma_decimal_digits(n / 10);
        let d = decimal(n);
        assert(d.drop_last() =~= decimal(n / 10));
        assert(digits_value(d) == (n / 10) * 10 + k);
        assert forall|i: int| 0 <= i < d.len() implies #[trigger] is_digit(d[i]) by {
            if i < d.len() - 1 {
                assert(d[i] == decimal(n / 10)[i]);
            }
        }
    }
}

/// Reading back the decimal writing of a number gives that number.
pub proof fn lemma_decimal_round_trip(n: nat)
    ensures
        unsigned_value(decimal(n)) == Some(n),
{
    lemma_decimal_digits(n);
    assert(is_digit(decimal(n)[0]));
}

proof fn lemma_trim_start_push(s: Seq<char>, w: char)
    ensures
        trim_start(s.push(w)) == (if trim_start(s).len() == 0 {
            if is_white(w) {
                Seq::<char>::empty()
            } else {
                seq![w]
            }
        } else {
            trim_start(s).push(w)
        }),
    decreases s.len(),
{
    if s.len() == 0 {
        assert(s.push(w) =~= seq![w]);
        assert(seq![w].drop_first() =~= Seq::<char>::empty());
        assert(trim_start(Seq::<char>::empty()) == Seq::<char>::empty());
        assert(seq![w][0] == w);
    } else if is_white(s[0]) {
        assert(s.push(w).drop_first() =~= s.drop_first().push(w));
        assert(s.push(w)[0] == s[0]);
        lemma_trim_start_push(s.drop_first(), w);
    } else {
        assert(s.push(w)[0] == s[0]);
    }
}

/// Whitespace at the end of a text does not change the text once trimmed.
pub proof fn lemma_trim_push_white(s: Seq<char>, w: char)
    requires
        is_white(w),
    ensures
        trim(s.push(w)) == trim(s),
{
    lemma_trim_start_push(s, w);
    let t = trim_start(s);
    if t.len() != 0 {
        assert(t.push(w).drop_last() =~= t);
    }
}

/// A text without whitespace at either end is its own trimmed form.
pub proof fn lemma_trim_unpadded(s: Seq<char>)
    requires
        s.len() == 0 || (!is_white(s[0]) && !is_white(s.last())),
    ensures
        trim(s) == s,
{
}

/// Whether every character of `s` is ASCII.
pub open spec fn all_ascii(s: Seq<char>) -> bool {
    forall|i: int| 0 <= i < s.len() ==> ((#[trigger] s[i]) as u32) < 128
}

/// `c` in upper case where it is an ASCII letter.
pub open spec fn ascii_upper_char(c: char) -> char {
    if 'a' as u32 <= c as u32 <= 'z' as u32 {
        (c as u32 - 32) as char
    } else {
        c
    }
}

/// `c` in lower case where it is an ASCII letter.
pub open spec fn ascii_lower_char(c: char) -> char {
    if 'A' as u32 <= c as u32 <= 'Z' as u32 {
        (c as u32 + 32) as char
    } else {
        c
    }
}

/// `s` with its ASCII letters in upper case, as `str::to_ascii_uppercase` gives it.
pub open spec fn ascii_upper(s: Seq<char>) -> Seq<char> {
    s.map_values(|c: char| ascii_upper_char(c))
}

/// `s` with its ASCII letters in lower case, as `str::to_ascii_lowercase` gives it.
pub open spec fn ascii_lower(s: Seq<char>) -> Seq<char> {
    s.map_values(|c: char| ascii_lower_char(c))
}

pub proof fn lemma_ascii_lower_char(c: char)
    ensures
        is_white(ascii_lower_char(c)) == is_white(c),
        ascii_lower_char(c) == ',' <==> c == ',',
        ascii_lower_char(c) == '.' <==> c == '.',
        ascii_upper_char(ascii_lower_char(c)) == ascii_upper_char(c),
        (c as u32) < 128 ==> (ascii_lower_char(c) as u32) < 128,
{
    if 'A' as u32 <= c as u32 <= 'Z' as u32 {
        let n = c as u32 + 32;
        assert((n as char) as u32 == n);
        assert(((n - 32) as char) as u32 == n - 32);
        assert(((n - 32) as char) == c) by {
            assert((c as u32) == n - 32);
        }
    }
}

proof fn lemma_trim_start_lower(s: Seq<char>)
    ensures
        trim_start(ascii_lower(s)) == ascii_lower(trim_start(s)),
    decreases s.len(),
{
    if s.len() > 0 {
        lemma_ascii_lower_char(s[0]);
        assert(ascii_lower(s)[0] == ascii_lower_char(s[0]));
        assert(ascii_lower(s).drop_first() =~= ascii_lower(s.drop_first()));
        lemma_trim_start_lower(s.drop_first());
    } else {
        assert(ascii_lower(s) =~= s);
    }
}

proof fn lemma_trim_end_lower(s: Seq<char>)
    ensures
        trim_end(ascii_lower(s)) == ascii_lower(trim_end(s)),
    decreases s.len(),
{
    if s.len() > 0 {
        lemma_ascii_lower_char(s.last());
        assert(ascii_lower(s).last() == ascii_lower_char(s.last()));
        assert(ascii_lower(s).drop_last() =~= ascii_lower(s.drop_last()));
        lemma_trim_end_lower(s.drop_last());
    } else {
        assert(ascii_lower(s) =~= s);
    }
}

/// Lowering ASCII letters and trimming can be done in either order.
pub proof fn lemma_trim_lower(s: Seq<char>)
    ensures
        trim(ascii_lower(s)) == ascii_lower(trim(s)),
{
    lemma_trim_start_lower(s);
    lemma_trim_end_lower(trim_start(s));
}

/// Upper-casing ASCII letters undoes lowering them.
pub proof fn lemma_upper_lower(s: Seq<char>)
    ensures
        ascii_upper(ascii_lower(s)) == ascii_upper(s),
{
    assert forall|i: int| 0 <= i < s.len() implies ascii_upper(ascii_lower(s))[i] == ascii_upper(
        s,
    )[i] by {
        lemma_ascii_lower_char(s[i]);
    }
    assert(ascii_upper(ascii_lower(s)) =~= ascii_upper(s));
}

/// Lowering ASCII letters keeps a text ASCII.
pub proof fn lemma_lower_ascii(s: Seq<char>)
    requires
        all_ascii(s),
    ensures
        all_ascii(ascii_lower(s)),
{
    assert forall|i: int| 0 <= i < s.len() implies ((#[trigger] ascii_lower(s)[i]) as u32) < 128 by {
        lemma_ascii_lower_char(s[i]);
    }
}

/// Splitting a text with its ASCII letters lowered at `,` gives its pieces
/// with their ASCII letters lowered.
pub proof fn lemma_split_lower(s: Seq<char>)
    ensures
        split_on(ascii_lower(s), ',') =~~= split_on(s, ',').map_values(|p: Seq<char>| ascii_lower(p)),
    decreases s.len(),
{
    if s.len() > 0 {
        let t = ascii_lower(s);
        assert(t.drop_last() =~= ascii_lower(s.drop_last()));
        lemma_split_lower(s.drop_last());
        lemma_split_on_nonempty(s.drop_last(), ',');
        lemma_ascii_lower_char(s.last());
        assert(t.last() == ascii_lower_char(s.last()));
        let p = split_on(s.drop_last(), ',');
        let q = split_on(t.drop_last(), ',');
        if s.last() != ',' {
            assert(ascii_lower(p.last().push(s.last())) =~= q.last().push(t.last()));
        } else {
            assert(ascii_lower(Seq::<char>::empty()) =~= Seq::<char>::empty());
        }
    } else {
        assert(ascii_lower(s) =~= s);
        assert(ascii_lower(Seq::<char>::empty()) =~= Seq::<char>::empty());
    }
}

/// Each piece of an ASCII text split at `sep` is ASCII.
pub proof fn lemma_split_ascii(s: Seq<char>, sep: char)
    requires
        all_ascii(s),
    ensures
        forall|i: int| 0 <= i < split_on(s, sep).len() ==> all_ascii(#[trigger] split_on(s, sep)[i]),
    decreases s.len(),
{
    if s.len() > 0 {
        let d = s.drop_last();
        assert(all_ascii(d)) by {
            assert forall|i: int| 0 <= i < d.len() implies ((#[trigger] d[i]) as u32) < 128 by {
                assert(d[i] == s[i]);
            }
        }
        lemma_split_ascii(d, sep);
        lemma_split_on_nonempty(d, sep);
        let p = split_on(d, sep);
        assert(s.last() as u32 == s[s.len() - 1] as u32);
        if s.last() != sep {
            let l = p.last().push(s.last());
            assert(all_ascii(p[p.len() - 1]));
            assert forall|k: int| 0 <= k < l.len() implies ((#[trigger] l[k]) as u32) < 128 by {
                if k < l.len() - 1 {
                    assert(l[k] == p[p.len() - 1][k]);
                }
            }
        }
    }
}

/// Whether `c` is whitespace, as `char::is_whitespace` decides.
pub fn is_whitespace(c: char) -> (b: bool)
    ensures
        b == is_white(c),
{
    let n = c as u32;
    (0x9 <= n && n <= 0xd) || n == 0x20 || n == 0x85 || n == 0xa0 || n == 0x1680 || (0x2000 <= n
        && n <= 0x200a) || n == 0x2028 || n == 0x2029 || n == 0x202f || n == 0x205f || n == 0x3000
}

/// The characters of `s`, in order.
pub fn chars_of(s: &str) -> (v: Vec<char>)
    ensures
        v@ == s@,
{
    let mut v: Vec<char> = Vec::new();
    for c in it: s.chars()
        invariant
            v@ == it.seq().take(it.index() as int),
            it.seq() == s@,
    {
        v.push(c);
    }
    v
}

/// The characters of `s` from index `from` up to, not including, `to`.
pub fn slice_chars(s: &Vec<char>, from: usize, to: usize) -> (v: Vec<char>)
    requires
        from <= to <= s.len(),
    ensures
        v@ == s@.subrange(from as int, to as int),
{
    let mut v: Vec<char> = Vec::new();
    let mut i = from;
    while i < to
        invariant
            from <= i <= to <= s.len(),
            v@ == s@.subrange(from as int, i as int),
        decreases to - i,
    {
        v.push(s[i]);
        i = i + 1;
    }
    v
}

/// A `String` holding the characters of `v`.
#[verifier::external_body]
pub(crate) fn string_from_chars(v: &Vec<char>) -> (s: String)
    ensures
        s@ == v@,
{
    v.iter().collect()
}

proof fn lemma_trim_start_skip(s: Seq<char>, i: int)
    requires
        0 <= i <= s.len(),
        forall|j: int| 0 <= j < i ==> is_white(#[trigger] s[j]),
    ensures
        trim_start(s) == trim_start(s.skip(i)),
    decreases i,
{
    if i > 0 {
        lemma_trim_start_skip(s.drop_first(), i - 1);
        assert(s.drop_first().skip(i - 1) =~= s.skip(i));
    } else {
        assert(s.skip(0) =~= s);
    }
}

proof fn lemma_trim_end_take(s: Seq<char>, j: int)
    requires
        0 <= j <= s.len(),
        forall|k: int| j <= k < s.len() ==> is_white(#[trigger] s[k]),
    ensures
        trim_end(s) == trim_end(s.take(j)),
    decreases s.len() - j,
{
    if j < s.len() {
        lemma_trim_end_take(s.drop_last(), j);
        assert(s.drop_last().take(j) =~= s.take(j));
    } else {
        assert(s.take(j) =~= s);
    }
}

/// The bounds of `s` without its leading and trailing whitespace.
pub fn trim_bounds(s: &Vec<char>) -> (r: (usize, usize))
    ensures
        r.0 <= r.1 <= s.len(),
        s@.subrange(r.0 as int, r.1 as int) == trim(s@),
{
    let n = s.len();
    let mut i: usize = 0;
    while i < n && is_whitespace(s[i])
        invariant
            i <= n == s.len(),
            forall|j: int| 0 <= j < i ==> is_white(#[trigger] s@[j]),
        decreases n - i,
    {
        i = i + 1;
    }
    proof {
        lemma_trim_start_skip(s@, i as int);
    }
    let mut j: usize = n;
    while j > i && is_whitespace(s[j - 1])
        invariant
            i <= j <= n == s.len(),
            forall|k: int| j <= k < n ==> is_white(#[trigger] s@[k]),
        decreases j,
    {
        j = j - 1;
    }
    proof {
        let t = s@.skip(i as int);
        assert(trim_start(t) == t);
        lemma_trim_end_take(t, j - i);
        assert(t.take(j - i) =~= s@.subrange(i as int, j as int));
        let u = s@.subrange(i as int, j as int);
        assert(trim_end(u) == u);
    }
    (i, j)
}

/// `s` without leading and trailing whitespace.
pub fn trim_chars(s: &Vec<char>) -> (t: Vec<char>)
    ensures
        t@ == trim(s@),
{
    let (a, b) = trim_bounds(s);
    slice_chars(s, a, b)
}

/// The whitespace-separated words of `s`, as `str::split_whitespace` yields them.
pub fn split_words(s: &Vec<char>) -> (out: Vec<Vec<char>>)
    ensures
        out@.map_values(|w: Vec<char>| w@) == words(s@),
{
    let n = s.len();
    let mut out: Vec<Vec<char>> = Vec::new();
    let mut i: usize = 0;
    assert(s@.skip(0) =~= s@);
    while i < n
        invariant
            i <= n == s.len(),
            words(s@) == out@.map_values(|w: Vec<char>| w@) + words(s@.skip(i as int)),
        decreases n - i,
    {
        let ghost rest = s@.skip(i as int);
        if is_whitespace(s[i]) {
            assert(rest.drop_first() =~= s@.skip(i + 1));
            i = i + 1;
        } else {
            let mut j: usize = i;
            assert(s@.skip(j as int) == rest);
            while j < n && !is_whitespace(s[j])
                invariant
                    i <= j <= n == s.len(),
                    rest == s@.skip(i as int),
                    word_len(rest) == (j - i) + word_len(s@.skip(j as int)),
                decreases n - j,
            {
                assert(s@.skip(j as int).drop_first() =~= s@.skip(j + 1));
                j = j + 1;
            }
            let w = slice_chars(s, i, j);
            proof {
                assert(rest.take(word_len(rest) as int) =~= w@);
                assert(rest.skip(word_len(rest) as int) =~= s@.skip(j as int));
            }
            let ghost before = out@.map_values(|w: Vec<char>| w@);
            out.push(w);
            assert(out@.map_values(|w: Vec<char>| w@) =~= before.push(w@));
            i = j;
        }
    }
    assert(s@.skip(n as int) =~= Seq::<char>::empty());
    assert(out@.map_values(|w: Vec<char>| w@) + seq![] =~= out@.map_values(|w: Vec<char>| w@));
    out
}

/// The pieces of `s` between occurrences of `sep`, as `str::split` yields them.
pub fn split_chars(s: &Vec<char>, sep: char) -> (out: Vec<Vec<char>>)
    ensures
        out@.map_values(|w: Vec<char>| w@) == split_on(s@, sep),
        out.len() >= 1,
{
    let n = s.len();
    let mut out: Vec<Vec<char>> = Vec::new();
    let mut cur: Vec<char> = Vec::new();
    let mut i: usize = 0;
    assert(s@.take(0) =~= Seq::<char>::empty());
    while i < n
        invariant
            i <= n == s.len(),
            split_on(s@.take(i as int), sep) == out@.map_values(|w: Vec<char>| w@).push(cur@),
        decreases n - i,
    {
        let c = s[i];
        let ghost before = out@.map_values(|w: Vec<char>| w@);
        let ghost prefix = s@.take(i + 1);
        assert(prefix.drop_last() =~= s@.take(i as int));
        if c == sep {
            out.push(cur);
            cur = Vec::new();
            assert(out@.map_values(|w: Vec<char>| w@) =~= before.push(
                split_on(s@.take(i as int), sep).last(),
            ));
        } else {
            cur.push(c);
            assert(split_on(prefix, sep) =~= before.push(cur@));
        }
        i = i + 1;
    }
    assert(s@.take(n as int) =~= s@);
    let ghost before = out@.map_values(|w: Vec<char>| w@);
    out.push(cur);
    assert(out@.map_values(|w: Vec<char>| w@) =~= before.push(cur@));
    out
}

/// Whether `s` begins with `p`.
pub fn starts_with(s: &Vec<char>, p: &Vec<char>) -> (b: bool)
    ensures
        b == has_prefix(s@, p@),
{
    if p.len() > s.len() {
        return false;
    }
    let mut i: usize = 0;
    while i < p.len()
        invariant
            i <= p.len() <= s.len(),
            forall|k: int| 0 <= k < i ==> s@[k] == p@[k],
        decreases p.len() - i,
    {
        if s[i] != p[i] {
            assert(s@.take(p.len() as int)[i as int] != p@[i as int]);
            return false;
        }
        i = i + 1;
    }
    assert(s@.take(p.len() as int) =~= p@);
    true
}

/// `s` read as an unsigned decimal number, as `u64::from_str` reads it.
pub fn parse_u64(s: &Vec<char>) -> (r: Option<u64>)
    ensures
        r == parse_u64_spec(s@),
{
    let n = s.len();
    let start: usize = if n > 0 && s[0] == '+' {
        1
    } else {
        0
    };
    let ghost d = if s@.len() > 0 && s@[0] == '+' {
        s@.drop_first()
    } else {
        s@
    };
    assert(d =~= s@.skip(start as int));
    if start == n {
        return None;
    }
    let mut acc: u64 = 0;
    let mut i: usize = start;
    assert(d.take(0) =~= Seq::<char>::empty());
    while i < n
        invariant
            start <= i <= n == s.len(),
            start < n,
            d == s@.skip(start as int),
            d == (if s@.len() > 0 && s@[0] == '+' {
                s@.drop_first()
            } else {
                s@
            }),
            forall|k: int| 0 <= k < i - start ==> #[trigger] is_digit(d[k]),
            acc == digits_value(d.take(i - start)),
        decreases n - i,
    {
        let c = s[i];
        assert(c == d[i - start]);
        let cv = c as u32;
        if !(48 <= cv && cv <= 57) {
            assert(!is_digit(d[i - start]));
            return None;
        }
        let v = (cv - 48) as u64;
        assert(d.take(i - start + 1).last() == c);
        assert(digit_value(c) == v);
        assert(d.take(i - start + 1).drop_last() =~= d.take(i - start));
        assert(digits_value(d.take(i - start + 1)) == acc * 10 + v);
        if acc > (u64::MAX - v) / 10 {
            proof {
                assert(acc * 10 + v > u64::MAX) by (nonlinear_arith)
                    requires
                        acc > (u64::MAX - v) / 10,
                        v <= 9,
                ;
                lemma_digits_value_prefix(d, i - start + 1);
            }
            return None;
        }
        assert(acc * 10 + v <= u64::MAX) by (nonlinear_arith)
            requires
                acc <= (u64::MAX - v) / 10,
                v <= 9,
        ;
        acc = acc * 10 + v;
        i = i + 1;
    }
    assert(d.take(n - start) =~= d);
    Some(acc)
}

/// `s` read as a `u32`, as `u32::from_str` reads it.
pub fn parse_u32(s: &Vec<char>) -> (r: Option<u32>)
    ensures
        r == parse_u32_spec(s@),
{
    match parse_u64(s) {
        Some(v) => if v <= u32::MAX as u64 {
            Some(v as u32)
        } else {
            None
        },
        None => {
            proof {
                if let Some(v) = unsigned_value(s@) {
                    assert(v > u64::MAX);
                }
            }
            None
        },
    }
}

/// Appends the decimal writing of `n` to `out`.
pub fn push_decimal(out: &mut Vec<char>, n: u64)
    ensures
        final(out)@ == old(out)@ + decimal(n as nat),
    decreases n,
{
    if n >= 10 {
        push_decimal(out, n / 10);
    }
    out.push(('0' as u8 + (n % 10) as u8) as char);
}

} // verus!
