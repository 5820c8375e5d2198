use vstd::prelude::*;

verus! {

/// The character of a decimal digit.
pub open spec fn digit_char(d: nat) -> char {
    if d == 0 { '0' }
    else if d == 1 { '1' }
    else if d == 2 { '2' }
    else if d == 3 { '3' }
    else if d == 4 { '4' }
    else if d == 5 { '5' }
    else if d == 6 { '6' }
    else if d == 7 { '7' }
    else if d == 8 { '8' }
    else { '9' }
}

/// The decimal notation of `n`, without leading zeros.
pub open spec fn decimal_of(n: nat) -> Seq<char>
    decreases n,
{
    if n < 10 {
        seq![digit_char(n)]
    } else {
        decimal_of(n / 10).push(digit_char(n % 10))
    }
}

fn digit_str(d: u64) -> (r: &'static str)
    requires
        d < 10,
    ensures
        r@ == seq![digit_char(d as nat)],
{
    proof {
        reveal_strlit("0");
        reveal_strlit("1");
        reveal_strlit("2");
        reveal_strlit("3");
        reveal_strlit("4");
        reveal_strlit("5");
        reveal_strlit("6");
        reveal_strlit("7");
        reveal_strlit("8");
        reveal_strlit("9");
    }
    let r = if d == 0 {
        "0"
    } else if d == 1 {
        "1"
    } else if d == 2 {
        "2"
    } else if d == 3 {
        "3"
    } else if d == 4 {
        "4"
    } else if d == 5 {
        "5"
    } else if d == 6 {
        "6"
    } else if d == 7 {
        "7"
    } else if d == 8 {
        "8"
    } else {
        "9"
    };
    assert(r@ =~= seq![digit_char(d as nat)]);
    r
}

/// Writes `n` in decimal.
pub fn decimal_string(n: u64) -> (r: String)
    ensures
        r@ == decimal_of(n as nat),
    decreases n,
{
    if n < 10 {
        String::from_str(digit_str(n))
    } else {
        let mut s = decimal_string(n / 10);
        s.append(digit_str(n % 10));
        s
    }
}


/// `pat` occurs in `s` starting at position `i`.
pub open spec fn occurs_at(s: Seq<char>, pat: Seq<char>, i: int) -> bool {
    0 <= i && i + pat.len() <= s.len() && s.subrange(i, i + pat.len()) == pat
}

/// `pat` occurs somewhere in `s`.
pub open spec fn contains_seq(s: Seq<char>, pat: Seq<char>) -> bool {
    exists|i: int| occurs_at(s, pat, i)
}

/// `s` begins with `pat`.
pub open spec fn starts_with_seq(s: Seq<char>, pat: Seq<char>) -> bool {
    occurs_at(s, pat, 0)
}

fn matches_at(s: &str, n: usize, pat: &str, m: usize, i: usize) -> (r: bool)
    requires
        n == s@.len(),
        m == pat@.len(),
        i + m <= n,
    ensures
        r == occurs_at(s@, pat@, i as int),
{
    let mut j: usize = 0;
    while j < m
        invariant
            n == s@.len(),
            m == pat@.len(),
            i + m <= n,
            j <= m,
            forall|k: int| 0 <= k < j ==> s@[i + k] == pat@[k],
        decreases m - j,
    {
        if s.get_char(i + j) != pat.get_char(j) {
            assert(s@.subrange(i as int, i + m)[j as int] != pat@[j as int]);
            return false;
        }
        j = j + 1;
    }
    assert(s@.subrange(i as int, i + m) =~= pat@);
    true
}

/// Whether `pat` occurs in `s`.
pub fn contains_str(s: &str, pat: &str) -> (r: bool)
    ensures
        r == contains_seq(s@, pat@),
{
    let n = s.unicode_len();
    let m = pat.unicode_len();
    if m > n {
        return false;
    }
    let last = n - m;
    let mut i: usize = 0;
    loop
        invariant
            n == s@.len(),
            m == pat@.len(),
            m <= n,
            last == n - m,
            i <= last,
            forall|k: int| 0 <= k < i ==> !occurs_at(s@, pat@, k),
        decreases last - i,
    {
        if matches_at(s, n, pat, m, i) {
            return true;
        }
        if i == last {
            assert forall|k: int| !occurs_at(s@, pat@, k) by {
                if 0 <= k < i {
                } else if k == i {
                } else {
                }
            }
            return false;
        }
        i = i + 1;
    }
}

/// Whether `s` begins with `pat`.
pub fn starts_with_str(s: &str, pat: &str) -> (r: bool)
    ensures
        r == starts_with_seq(s@, pat@),
{
    let n = s.unicode_len();
    let m = pat.unicode_len();
    if m > n {
        return false;
    }
    matches_at(s, n, pat, m, 0)
}

/// The characters that separate words: Unicode's White_Space, as `char::is_whitespace` has it.
pub open spec fn is_space(c: char) -> bool {
    ('\t' <= c && c <= '\r') || c == ' ' || c == '\u{85}' || c == '\u{a0}' || c == '\u{1680}'
        || ('\u{2000}' <= c && c <= '\u{200a}') || c == '\u{2028}' || c == '\u{2029}' || c == '\u{202f}'
        || c == '\u{205f}' || c == '\u{3000}'
}

fn is_space_char(c: char) -> (r: bool)
    ensures
        r == is_space(c),
{
    ('\t' <= c && c <= '\r') || c == ' ' || c == '\u{85}' || c == '\u{a0}' || c == '\u{1680}'
        || ('\u{2000}' <= c && c <= '\u{200a}') || c == '\u{2028}' || c == '\u{2029}' || c == '\u{202f}'
        || c == '\u{205f}' || c == '\u{3000}'
}

/// The separator of a split: whitespace for words, the line feed for lines.
pub open spec fn is_separator(c: char, words: bool) -> bool {
    if words { is_space(c) } else { c == '\n' }
}

/// The pieces of `s` between separators, empty ones included; there is always at least one.
pub open spec fn pieces(s: Seq<char>, words: bool) -> Seq<Seq<char>>
    decreases s.len(),
{
    if s.len() == 0 {
        seq![Seq::empty()]
    } else {
        let p = pieces(s.drop_last(), words);
        if is_separator(s.last(), words) {
            p.push(Seq::empty())
        } else {
            p.update(p.len() - 1, p.last().push(s.last()))
        }
    }
}

proof fn lemma_pieces_len(s: Seq<char>, words: bool)
    ensures
        pieces(s, words).len() >= 1,
    decreases s.len(),
{
    if s.len() > 0 {
        lemma_pieces_len(s.drop_last(), words);
    }
}

/// A line without the carriage return that ends it, if any.
pub open spec fn strip_cr(l: Seq<char>) -> Seq<char> {
    if l.len() > 0 && l.last() == '\r' { l.drop_last() } else { l }
}

/// The lines of `s`: split at line feeds, each without a trailing carriage return.
pub open spec fn lines_of(s: Seq<char>) -> Seq<Seq<char>> {
    pieces(s, false).map_values(|l: Seq<char>| strip_cr(l))
}

/// The non-empty pieces of a sequence, in order.
pub open spec fn non_empty(ls: Seq<Seq<char>>) -> Seq<Seq<char>>
    decreases ls.len(),
{
    if ls.len() == 0 {
        Seq::empty()
    } else if ls.last().len() > 0 {
        non_empty(ls.drop_last()).push(ls.last())
    } else {
        non_empty(ls.drop_last())
    }
}

/// The whitespace-separated words of `s`.
pub open spec fn words_of(s: Seq<char>) -> Seq<Seq<char>> {
    non_empty(pieces(s, true))
}

/// The views of a vector of strings.
pub open spec fn views(v: Seq<String>) -> Seq<Seq<char>> {
    v.map_values(|x: String| x@)
}

fn split_pieces(s: &str, words: bool) -> (r: Vec<String>)
    ensures
        views(r@) == pieces(s@, words),
{
    let n = s.unicode_len();
    let mut out: Vec<String> = Vec::new();
    let mut start: usize = 0;
    let mut i: usize = 0;
    assert(s@.take(0) =~= Seq::<char>::empty());
    assert(views(out@) =~= Seq::<Seq<char>>::empty());
    assert(views(out@).push(s@.subrange(0, 0)) =~= pieces(s@.take(0), words));
    while i < n
        invariant
            n == s@.len(),
            start <= i <= n,
            views(out@).push(s@.subrange(start as int, i as int)) == pieces(s@.take(i as int), words),
        decreases n - i,
    {
        let c = s.get_char(i);
        let ghost prev = views(out@);
        let ghost p = pieces(s@.take(i as int), words);
        proof {
            assert(s@.take(i + 1).drop_last() =~= s@.take(i as int));
            assert(s@.take(i + 1).last() == c);
            lemma_pieces_len(s@.take(i as int), words);
        }
        let sep = if words {
            is_space_char(c)
        } else {
            c == '\n'
        };
        if sep {
            let piece = String::from_str(s.substring_char(start, i));
            out.push(piece);
            start = i + 1;
            assert(views(out@) =~= prev.push(piece@));
            assert(pieces(s@.take(i + 1), words) == p.push(Seq::empty()));
            assert(s@.subrange(start as int, i + 1) =~= Seq::<char>::empty());
            assert(views(out@).push(s@.subrange(start as int, i + 1)) =~= pieces(s@.take(i + 1), words));
        } else {
            assert(!is_separator(c, words));
            assert(s@.subrange(start as int, i + 1) =~= s@.subrange(start as int, i as int).push(c));
            assert(p.last() == s@.subrange(start as int, i as int));
            assert(pieces(s@.take(i + 1), words) == p.update(p.len() - 1, p.last().push(c)));
            assert(p == prev.push(s@.subrange(start as int, i as int)));
            assert(p.update(p.len() - 1, s@.subrange(start as int, i + 1)) =~= prev.push(s@.subrange(start as int, i + 1)));
            assert(views(out@).push(s@.subrange(start as int, i + 1)) =~= pieces(s@.take(i + 1), words));
        }
        i = i + 1;
    }
    let last = String::from_str(s.substring_char(start, n));
    let ghost prev = views(out@);
    out.push(last);
    assert(views(out@) =~= prev.push(last@));
    assert(s@.take(n as int) =~= s@);
    assert(views(out@) =~= pieces(s@, words));
    out
}


fn strip_cr_str(l: &str) -> (r: String)
    ensures
        r@ == strip_cr(l@),
{
    let n = l.unicode_len();
    if n > 0 && l.get_char(n - 1) == '\r' {
        proof {
            assert(l@.subrange(0, n - 1) =~= l@.drop_last());
        }
        String::from_str(l.substring_char(0, n - 1))
    } else {
        String::from_str(l)
    }
}

/// Splits `s` into lines.
pub fn split_lines(s: &str) -> (r: Vec<String>)
    ensures
        views(r@) == lines_of(s@),
{
    let raw = split_pieces(s, false);
    let mut out: Vec<String> = Vec::new();
    let mut i: usize = 0;
    while i < raw.len()
        invariant
            views(raw@) == pieces(s@, false),
            i <= raw.len(),
            views(out@) =~= lines_of(s@).take(i as int),
        decreases raw.len() - i,
    {
        let line = strip_cr_str(raw[i].as_str());
        let ghost prev = views(out@);
        out.push(line);
        assert(views(out@) =~= prev.push(line@));
        assert(raw@[i as int]@ == pieces(s@, false)[i as int]);
        assert(lines_of(s@).take(i + 1) =~= lines_of(s@).take(i as int).push(line@));
        i = i + 1;
    }
    assert(lines_of(s@).take(i as int) =~= lines_of(s@));
    out
}

/// The non-empty strings of `v`, in order.
pub fn keep_non_empty(v: Vec<String>) -> (r: Vec<String>)
    ensures
        views(r@) == non_empty(views(v@)),
{
    let mut out: Vec<String> = Vec::new();
    let mut i: usize = 0;
    assert(views(v@).take(0) =~= Seq::<Seq<char>>::empty());
    while i < v.len()
        invariant
            i <= v.len(),
            views(out@) == non_empty(views(v@).take(i as int)),
        decreases v.len() - i,
    {
        let ghost prev = views(out@);
        let x = v[i].clone();
        assert(views(v@).take(i + 1).drop_last() =~= views(v@).take(i as int));
        assert(views(v@).take(i + 1).last() == x@);
        if x.unicode_len() > 0 {
            out.push(x);
            assert(views(out@) =~= prev.push(x@));
        }
        i = i + 1;
    }
    assert(views(v@).take(i as int) =~= views(v@));
    out
}

/// Splits `s` into its whitespace-separated words.
pub fn split_words(s: &str) -> (r: Vec<String>)
    ensures
        views(r@) == words_of(s@),
{
    keep_non_empty(split_pieces(s, true))
}

/// `l` without the whitespace that begins it.
pub open spec fn trim_front(l: Seq<char>) -> Seq<char>
    decreases l.len(),
{
    if l.len() > 0 && is_space(l[0]) { trim_front(l.drop_first()) } else { l }
}

/// `l` without the whitespace that ends it.
pub open spec fn trim_back(l: Seq<char>) -> Seq<char>
    decreases l.len(),
{
    if l.len() > 0 && is_space(l.last()) { trim_back(l.drop_last()) } else { l }
}

/// `l` without whitespace at either end.
pub open spec fn trim(l: Seq<char>) -> Seq<char> {
    trim_back(trim_front(l))
}

proof fn lemma_trim_front(l: Seq<char>, a: int)
    requires
        0 <= a <= l.len(),
        forall|k: int| 0 <= k < a ==> is_space(l[k]),
        a == l.len() || !is_space(l[a]),
    ensures
        trim_front(l) == l.subrange(a, l.len() as int),
    decreases a,
{
    if a == 0 {
        assert(l.subrange(0, l.len() as int) =~= l);
    } else {
        assert forall|k: int| 0 <= k < a - 1 implies is_space(l.drop_first()[k]) by {
            assert(l.drop_first()[k] == l[k + 1]);
        }
        lemma_trim_front(l.drop_first(), a - 1);
        assert(l.drop_first().subrange(a - 1, l.len() - 1) =~= l.subrange(a, l.len() as int));
    }
}

proof fn lemma_trim_back(l: Seq<char>, b: int)
    requires
        0 <= b <= l.len(),
        forall|k: int| b <= k < l.len() ==> is_space(l[k]),
        b == 0 || !is_space(l[b - 1]),
    ensures
        trim_back(l) == l.subrange(0, b),
    decreases l.len() - b,
{
    if b == l.len() {
        assert(l.subrange(0, b) =~= l);
    } else {
        lemma_trim_back(l.drop_last(), b);
        assert(l.drop_last().subrange(0, b) =~= l.subrange(0, b));
    }
}

/// `l` without whitespace at either end.
pub fn trim_str(l: &str) -> (r: String)
    ensures
        r@ == trim(l@),
{
    let n = l.unicode_len();
    let mut a: usize = 0;
    while a < n && is_space_char(l.get_char(a))
        invariant
            n == l@.len(),
            a <= n,
            forall|k: int| 0 <= k < a ==> is_space(l@[k]),
        decreases n - a,
    {
        a = a + 1;
    }
    proof {
        lemma_trim_front(l@, a as int);
    }
    let ghost f = l@.subrange(a as int, n as int);
    let mut b: usize = n;
    while b > a && is_space_char(l.get_char(b - 1))
        invariant
            n == l@.len(),
            a <= b <= n,
            f == l@.subrange(a as int, n as int),
            forall|k: int| b <= k < n ==> is_space(l@[k]),
        decreases b - a,
    {
        b = b - 1;
    }
    proof {
        assert forall|k: int| b - a <= k < f.len() implies is_space(f[k]) by {
            assert(f[k] == l@[k + a]);
        }
        if b > a {
            assert(f[b - a - 1] == l@[b - 1]);
        }
        lemma_trim_back(f, b - a);
        assert(f.subrange(0, b - a) =~= l@.subrange(a as int, b as int));
    }
    String::from_str(l.substring_char(a, b))
}


/// `c` is a decimal digit.
pub open spec fn is_digit(c: char) -> bool {
    '0' <= c && c <= '9'
}

/// The value of a decimal digit.
pub open spec fn digit_value(c: char) -> nat {
    ((c as u32) - ('0' as u32)) as nat
}

/// The value of a string of decimal digits.
pub open spec fn decimal_value(s: Seq<char>) -> nat
    decreases s.len(),
{
    if s.len() == 0 {
        0
    } else {
        decimal_value(s.drop_last()) * 10 + digit_value(s.last())
    }
}

/// What `s` denotes as an unsigned 64-bit decimal: an optional `+`, then one or more digits
/// whose value fits.
pub open spec fn parsed_u64(s: Seq<char>) -> Option<u64> {
    if s.len() > 0 && s[0] == '+' { parsed_digits(s.drop_first()) } else { parsed_digits(s) }
}

/// What a string of one or more decimal digits denotes, where the value fits in 64 bits.
pub open spec fn parsed_digits(s: Seq<char>) -> Option<u64> {
    if s.len() > 0 && (forall|i: int| 0 <= i < s.len() ==> is_digit(#[trigger] s[i]))
        && decimal_value(s) <= u64::MAX {
        Some(decimal_value(s) as u64)
    } else {
        None
    }
}

proof fn lemma_decimal_value_grows(s: Seq<char>, k: int)
    requires
        0 <= k <= s.len(),
    ensures
        decimal_value(s.take(k)) <= decimal_value(s),
    decreases s.len(),
{
    if k < s.len() {
        assert(s.drop_last().take(k) =~= s.take(k));
        lemma_decimal_value_grows(s.drop_last(), k);
    } else {
        assert(s.take(k) =~= s);
    }
}

/// Reads an unsigned decimal number, with an optional leading `+`.
pub fn parse_u64(s: &str) -> (r: Option<u64>)
    ensures
        r == parsed_u64(s@),
{
    let n = s.unicode_len();
    if n > 0 && s.get_char(0) == '+' {
        proof {
            assert(s@.subrange(1, n as int) =~= s@.drop_first());
        }
        parse_digits(s.substring_char(1, n))
    } else {
        parse_digits(s)
    }
}

fn parse_digits(s: &str) -> (r: Option<u64>)
    ensures
        r == parsed_digits(s@),
{
    let n = s.unicode_len();
    if n == 0 {
        return None;
    }
    let mut acc: u64 = 0;
    let mut i: usize = 0;
    assert(s@.take(0) =~= Seq::<char>::empty());
    while i < n
        invariant
            n == s@.len(),
            i <= n,
            acc == decimal_value(s@.take(i as int)),
            forall|k: int| 0 <= k < i ==> is_digit(#[trigger] s@[k]),
        decreases n - i,
    {
        let c = s.get_char(i);
        if !('0' <= c && c <= '9') {
            return None;
        }
        let d: u64 = (c as u32 - '0' as u32) as u64;
        assert(s@.take(i + 1).drop_last() =~= s@.take(i as int));
        assert(decimal_value(s@.take(i + 1)) == acc * 10 + d);
        if acc > (u64::MAX - d) / 10 {
            proof {
                assert(acc * 10 + d > u64::MAX) by (nonlinear_arith)
                    requires
                        acc > (u64::MAX - d) / 10,
                        d <= 9,
                ;
                lemma_decimal_value_grows(s@, i + 1);
            }
            return None;
        }
        assert(acc * 10 + d <= u64::MAX) by (nonlinear_arith)
            requires
                acc <= (u64::MAX - d) / 10,
                d <= 9,
        ;
        acc = acc * 10 + d;
        i = i + 1;
    }
    assert(s@.take(n as int) =~= s@);
    Some(acc)
}

} // verus!
