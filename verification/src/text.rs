//! Text as sequences of characters: comparing, trimming, splitting, replacing,
//! joining, and reading and writing decimal numbers.

use vstd::prelude::*;

verus! {

// ---------------------------------------------------------------------------
// Comparing
// ---------------------------------------------------------------------------

/// Whether two texts are the same.
pub fn same(a: &str, b: &str) -> (r: bool)
    ensures
        r == (a@ == b@),
{
    a.to_owned() == b.to_owned()
}

/// The characters of a text, in order.
pub fn chars_of(s: &str) -> (v: Vec<char>)
    ensures
        v@ == s@,
{
    let mut v: Vec<char> = Vec::new();
    for c in it: s.chars()
        invariant
            v@ == s@.take(it.index() as int),
            it.seq() == s@,
    {
        v.push(c);
        assert(s@.take(it.index() + 1) =~= s@.take(it.index() as int).push(c));
    }
    assert(s@.take(s@.len() as int) =~= s@);
    v
}

/// Whether `s` begins with `p`.
pub fn starts_with(s: &str, p: &str) -> (r: bool)
    ensures
        r == p@.is_prefix_of(s@),
{
    let n: usize = s.unicode_len();
    let k: usize = p.unicode_len();
    if k > n {
        return false;
    }
    same(s.substring_char(0, k), p)
}

/// Whether `s` ends with `p`.
pub fn ends_with(s: &str, p: &str) -> (r: bool)
    ensures
        r == p@.is_suffix_of(s@),
{
    let n: usize = s.unicode_len();
    let k: usize = p.unicode_len();
    if k > n {
        return false;
    }
    same(s.substring_char(n - k, n), p)
}

/// What is left of `s` behind the prefix `p`, if `s` begins with it.
pub open spec fn without_prefix(s: Seq<char>, p: Seq<char>) -> Option<Seq<char>> {
    if p.is_prefix_of(s) {
        Some(s.skip(p.len() as int))
    } else {
        None
    }
}

/// What is left of `s` before the suffix `p`, if `s` ends with it.
pub open spec fn without_suffix(s: Seq<char>, p: Seq<char>) -> Option<Seq<char>> {
    if p.is_suffix_of(s) {
        Some(s.take(s.len() - p.len()))
    } else {
        None
    }
}

/// The view of an optional piece of text.
pub open spec fn opt_text(o: Option<&str>) -> Option<Seq<char>> {
    match o {
        Some(s) => Some(s@),
        None => None,
    }
}

/// The view of an optional owned text.
pub open spec fn opt_string(o: Option<String>) -> Option<Seq<char>> {
    match o {
        Some(s) => Some(s@),
        None => None,
    }
}

/// The views of a list of owned texts.
pub open spec fn texts(v: Seq<String>) -> Seq<Seq<char>> {
    v.map_values(|s: String| s@)
}

/// The views of a list that got one text more.
pub broadcast proof fn lemma_texts_push(v: Seq<String>, s: String)
    ensures
        #[trigger] texts(v.push(s)) == texts(v).push(s@),
{
    assert(texts(v.push(s)) =~= texts(v).push(s@));
}

/// A copy of an optional text.
pub fn copy_option(o: &Option<String>) -> (r: Option<String>)
    ensures
        opt_string(r) == opt_string(*o),
{
    match o {
        Some(s) => Some(s.clone()),
        None => None,
    }
}

/// What is left of `s` behind the prefix `p`, if `s` begins with it.
pub fn strip_prefix<'a>(s: &'a str, p: &str) -> (r: Option<&'a str>)
    ensures
        opt_text(r) == without_prefix(s@, p@),
{
    if starts_with(s, p) {
        let n: usize = s.unicode_len();
        let k: usize = p.unicode_len();
        let rest = s.substring_char(k, n);
        assert(rest@ =~= s@.skip(p@.len() as int));
        Some(rest)
    } else {
        None
    }
}

/// What is left of `s` before the suffix `p`, if `s` ends with it.
pub fn strip_suffix<'a>(s: &'a str, p: &str) -> (r: Option<&'a str>)
    ensures
        opt_text(r) == without_suffix(s@, p@),
{
    if ends_with(s, p) {
        let n: usize = s.unicode_len();
        let k: usize = p.unicode_len();
        let rest = s.substring_char(0, n - k);
        assert(rest@ =~= s@.take(s@.len() - p@.len()));
        Some(rest)
    } else {
        None
    }
}

// ---------------------------------------------------------------------------
// White space
// ---------------------------------------------------------------------------

/// The characters with the Unicode property `White_Space`.
pub open spec fn is_white(c: char) -> bool {
    ||| '\u{9}' <= c <= '\u{d}'
    ||| c == ' '
    ||| c == '\u{85}'
    ||| c == '\u{a0}'
    ||| c == '\u{1680}'
    ||| '\u{2000}' <= c <= '\u{200a}'
    ||| c == '\u{2028}'
    ||| c == '\u{2029}'
    ||| c == '\u{202f}'
    ||| c == '\u{205f}'
    ||| c == '\u{3000}'
}

/// Whether `c` is white space.
pub fn white(c: char) -> (r: bool)
    ensures
        r == is_white(c),
{
    ('\u{9}' <= c && c <= '\u{d}') || c == ' ' || c == '\u{85}' || c == '\u{a0}' || c == '\u{1680}'
        || ('\u{2000}' <= c && c <= '\u{200a}') || c == '\u{2028}' || c == '\u{2029}' || c
        == '\u{202f}' || c == '\u{205f}' || c == '\u{3000}'
}

/// `s` without the white space it begins with.
pub open spec fn trimmed_start(s: Seq<char>) -> Seq<char>
    decreases s.len(),
{
    if s.len() > 0 && is_white(s[0]) {
        trimmed_start(s.skip(1))
    } else {
        s
    }
}

/// `s` without the white space it ends with.
pub open spec fn trimmed_end(s: Seq<char>) -> Seq<char>
    decreases s.len(),
{
    if s.len() > 0 && is_white(s.last()) {
        trimmed_end(s.drop_last())
    } else {
        s
    }
}

/// `s` without the white space around it.
pub open spec fn trimmed(s: Seq<char>) -> Seq<char> {
    trimmed_end(trimmed_start(s))
}

/// `s` without the white space it begins with.
pub fn trim_start(s: &str) -> (r: &str)
    ensures
        r@ == trimmed_start(s@),
{
    let cs = chars_of(s);
    let n: usize = cs.len();
    let mut i: usize = 0;
    assert(s@.skip(0) =~= s@);
    while i < n && white(cs[i])
        invariant
            cs@ == s@,
            n == cs@.len(),
            i <= n,
            trimmed_start(s@.skip(i as int)) == trimmed_start(s@),
        decreases n - i,
    {
        assert(s@.skip(i as int).skip(1) =~= s@.skip(i + 1));
        assert(s@.skip(i as int)[0] == cs@[i as int]);
        i = i + 1;
    }
    let r = s.substring_char(i, n);
    assert(r@ =~= s@.skip(i as int));
    assert(i < n ==> s@.skip(i as int)[0] == cs@[i as int]);
    r
}

/// `s` without the white space it ends with.
pub fn trim_end(s: &str) -> (r: &str)
    ensures
        r@ == trimmed_end(s@),
{
    let cs = chars_of(s);
    let mut n: usize = cs.len();
    assert(s@.take(n as int) =~= s@);
    while n > 0 && white(cs[n - 1])
        invariant
            cs@ == s@,
            n <= cs@.len(),
            trimmed_end(s@.take(n as int)) == trimmed_end(s@),
        decreases n,
    {
        assert(s@.take(n as int).drop_last() =~= s@.take(n - 1));
        assert(s@.take(n as int).last() == cs@[n - 1]);
        n = n - 1;
    }
    let r = s.substring_char(0, n);
    assert(r@ =~= s@.take(n as int));
    assert(n > 0 ==> s@.take(n as int).last() == cs@[n - 1]);
    r
}

/// `s` without the white space around it.
pub fn trim(s: &str) -> (r: &str)
    ensures
        r@ == trimmed(s@),
{
    trim_end(trim_start(s))
}

/// How many characters stand before the first white space of `s`.
pub open spec fn word_len(s: Seq<char>) -> nat
    decreases s.len(),
{
    if s.len() == 0 || is_white(s[0]) {
        0
    } else {
        1 + word_len(s.skip(1))
    }
}

/// The first run of characters of `s` that are not white space; empty if there is none.
pub open spec fn word_at_start(s: Seq<char>) -> Seq<char> {
    let t = trimmed_start(s);
    t.take(word_len(t) as int)
}

/// The first run of characters of `s` that are not white space; empty if there is none.
pub fn first_word(s: &str) -> (r: &str)
    ensures
        r@ == word_at_start(s@),
{
    let t = trim_start(s);
    let cs = chars_of(t);
    let n: usize = cs.len();
    let mut i: usize = 0;
    assert(t@.skip(0) =~= t@);
    while i < n && !white(cs[i])
        invariant
            cs@ == t@,
            n == cs@.len(),
            i <= n,
            i + word_len(t@.skip(i as int)) == word_len(t@),
        decreases n - i,
    {
        assert(t@.skip(i as int).skip(1) =~= t@.skip(i + 1));
        assert(t@.skip(i as int)[0] == cs@[i as int]);
        i = i + 1;
    }
    assert(i < n ==> t@.skip(i as int)[0] == cs@[i as int]);
    let r = t.substring_char(0, i);
    assert(r@ =~= t@.take(i as int));
    r
}

// ---------------------------------------------------------------------------
// Splitting
// ---------------------------------------------------------------------------

/// The first place of `c` in `s`; the length of `s` if it does not occur.
pub open spec fn find_char(s: Seq<char>, c: char) -> nat
    decreases s.len(),
{
    if s.len() == 0 || s[0] == c {
        0
    } else {
        1 + find_char(s.skip(1), c)
    }
}

/// What a line holds without the `\r` of a `\r\n` line end.
pub open spec fn without_cr(line: Seq<char>) -> Seq<char> {
    if line.len() > 0 && line.last() == '\r' {
        line.drop_last()
    } else {
        line
    }
}

/// The lines of `s`: each ends with `\n` or `\r\n`, which is not part of it; the last may
/// lack its line end.
pub open spec fn lines_of(s: Seq<char>) -> Seq<Seq<char>>
    decreases s.len(),
{
    if s.len() == 0 {
        Seq::empty()
    } else {
        let n = find_char(s, '\n');
        if n < s.len() {
            seq![without_cr(s.take(n as int))] + lines_of(s.skip(n as int + 1))
        } else {
            seq![s]
        }
    }
}

proof fn lemma_find_char_bound(s: Seq<char>, c: char)
    ensures
        find_char(s, c) <= s.len(),
        find_char(s, c) < s.len() ==> s[find_char(s, c) as int] == c,
        forall|i: int| 0 <= i < find_char(s, c) ==> s[i] != c,
    decreases s.len(),
{
    if s.len() > 0 && s[0] != c {
        lemma_find_char_bound(s.skip(1), c);
        assert forall|i: int| 0 <= i < find_char(s, c) implies s[i] != c by {
            if i > 0 {
                assert(s.skip(1)[i - 1] == s[i]);
            }
        }
    }
}

proof fn lemma_find_char_is(s: Seq<char>, c: char, n: int)
    requires
        0 <= n <= s.len(),
        n < s.len() ==> s[n] == c,
        forall|i: int| 0 <= i < n ==> s[i] != c,
    ensures
        find_char(s, c) == n,
{
    lemma_find_char_bound(s, c);
    let f = find_char(s, c) as int;
    if f < n {
        assert(s[f] != c);
    }
}

/// The lines of `s`.
pub fn lines(s: &str) -> (r: Vec<String>)
    ensures
        texts(r@) == lines_of(s@),
{
    let cs = chars_of(s);
    let n: usize = cs.len();
    let mut r: Vec<String> = Vec::new();
    let mut start: usize = 0;
    let mut i: usize = 0;
    proof {
        assert(s@.skip(0) =~= s@);
        assert(texts(r@) =~= Seq::empty());
        assert(texts(r@) + lines_of(s@) =~= lines_of(s@));
    }
    while i < n
        invariant
            cs@ == s@,
            n == cs@.len(),
            start <= i <= n,
            forall|k: int| start <= k < i ==> s@[k] != '\n',
            texts(r@) + lines_of(s@.skip(start as int)) == lines_of(s@),
        decreases n - i,
    {
        if cs[i] == '\n' {
            let stop: usize = if i > start && cs[i - 1] == '\r' {
                i - 1
            } else {
                i
            };
            let ghost rest = s@.skip(start as int);
            let line = s.substring_char(start, stop).to_owned();
            proof {
                lemma_find_char_is(rest, '\n', i - start);
                assert(rest.take(i - start) =~= s@.subrange(start as int, i as int));
                assert(line@ =~= without_cr(rest.take(i - start)));
                assert(rest.skip(i - start + 1) =~= s@.skip(i + 1));
                assert(texts(r@.push(line)) =~= texts(r@).push(line@));
                assert(texts(r@).push(line@) + lines_of(s@.skip(i + 1)) =~= texts(r@) + (
                seq![line@] + lines_of(s@.skip(i + 1))));
            }
            r.push(line);
            start = i + 1;
        }
        i = i + 1;
    }
    let ghost rest = s@.skip(start as int);
    if start < n {
        let line = s.substring_char(start, n).to_owned();
        proof {
            lemma_find_char_is(rest, '\n', n - start);
            assert(line@ =~= rest);
            assert(texts(r@.push(line)) =~= texts(r@) + seq![line@]);
        }
        r.push(line);
    } else {
        assert(texts(r@) + Seq::<Seq<char>>::empty() =~= texts(r@));
    }
    r
}

/// What stands behind the last `c` of `s`, if it occurs.
pub open spec fn behind_last(s: Seq<char>, c: char) -> Option<Seq<char>>
    decreases s.len(),
{
    if s.len() == 0 {
        None
    } else if s.last() == c {
        Some(Seq::empty())
    } else {
        match behind_last(s.drop_last(), c) {
            Some(t) => Some(t.push(s.last())),
            None => None,
        }
    }
}

/// What stands behind the last `c` of `s`, if it occurs.
pub fn after_last<'a>(s: &'a str, c: char) -> (r: Option<&'a str>)
    ensures
        opt_text(r) == behind_last(s@, c),
{
    let cs = chars_of(s);
    let n: usize = cs.len();
    let mut i: usize = 0;
    let mut at: Option<usize> = None;
    assert(s@.take(0).len() == 0);
    while i < n
        invariant
            cs@ == s@,
            n == cs@.len(),
            i <= n,
            match at {
                Some(k) => k <= i && behind_last(s@.take(i as int), c) == Some(
                    s@.subrange(k as int, i as int),
                ),
                None => behind_last(s@.take(i as int), c) is None,
            },
        decreases n - i,
    {
        let ghost t = s@.take(i + 1);
        assert(t.drop_last() =~= s@.take(i as int));
        assert(t.last() == s@[i as int]);
        if cs[i] == c {
            at = Some(i + 1);
            assert(s@.subrange(i + 1, i + 1) =~= Seq::empty());
        } else {
            match at {
                Some(k) => {
                    assert(s@.subrange(k as int, i + 1) =~= s@.subrange(k as int, i as int).push(
                        s@[i as int],
                    ));
                },
                None => {},
            }
        }
        i = i + 1;
    }
    assert(s@.take(n as int) =~= s@);
    match at {
        Some(k) => Some(s.substring_char(k, n)),
        None => None,
    }
}

// ---------------------------------------------------------------------------
// Replacing and joining
// ---------------------------------------------------------------------------

/// `s` with each occurrence of `pat`, found from the left and without overlaps, replaced
/// by `with`.
pub open spec fn replaced(s: Seq<char>, pat: Seq<char>, with: Seq<char>) -> Seq<char>
    decreases s.len(),
{
    if pat.len() == 0 || s.len() < pat.len() {
        s
    } else if pat.is_prefix_of(s) {
        with + replaced(s.skip(pat.len() as int), pat, with)
    } else {
        seq![s[0]] + replaced(s.skip(1), pat, with)
    }
}

/// `s` with each occurrence of the non-empty `pat` replaced by `with`.
pub fn replace(s: &str, pat: &str, with: &str) -> (r: String)
    requires
        pat@.len() > 0,
    ensures
        r@ == replaced(s@, pat@, with@),
{
    let n: usize = s.unicode_len();
    let k: usize = pat.unicode_len();
    let mut r: String = String::new();
    let mut i: usize = 0;
    assert(s@.skip(0) =~= s@);
    assert(r@ + replaced(s@, pat@, with@) =~= replaced(s@, pat@, with@));
    while k <= n - i
        invariant
            n == s@.len(),
            k == pat@.len(),
            k > 0,
            i <= n,
            r@ + replaced(s@.skip(i as int), pat@, with@) == replaced(s@, pat@, with@),
        decreases n - i,
    {
        let ghost rest = s@.skip(i as int);
        let piece = s.substring_char(i, i + k);
        assert(piece@ =~= rest.subrange(0, k as int));
        let ghost before = r@;
        if same(piece, pat) {
            assert(rest.skip(k as int) =~= s@.skip(i + k));
            assert(before + (with@ + replaced(s@.skip(i + k), pat@, with@)) =~= (before + with@)
                + replaced(s@.skip(i + k), pat@, with@));
            r.append(with);
            i = i + k;
        } else {
            let one = s.substring_char(i, i + 1);
            assert(one@ =~= seq![rest[0]]);
            assert(rest.skip(1) =~= s@.skip(i + 1));
            assert(before + (one@ + replaced(s@.skip(i + 1), pat@, with@)) =~= (before + one@)
                + replaced(s@.skip(i + 1), pat@, with@));
            r.append(one);
            i = i + 1;
        }
    }
    let tail = s.substring_char(i, n);
    assert(tail@ =~= s@.skip(i as int));
    r.append(tail);
    r
}

/// The texts of `parts` with `sep` between each two of them.
pub open spec fn joined(parts: Seq<Seq<char>>, sep: Seq<char>) -> Seq<char>
    decreases parts.len(),
{
    if parts.len() == 0 {
        Seq::empty()
    } else if parts.len() == 1 {
        parts[0]
    } else {
        joined(parts.drop_last(), sep) + sep + parts.last()
    }
}

/// The texts of `parts` with `sep` between each two of them.
pub fn join(parts: &Vec<String>, sep: &str) -> (r: String)
    ensures
        r@ == joined(texts(parts@), sep@),
{
    let n: usize = parts.len();
    let ghost all = texts(parts@);
    let mut r: String = String::new();
    let mut i: usize = 0;
    assert(all.take(0).len() == 0);
    while i < n
        invariant
            n == parts@.len(),
            all == texts(parts@),
            i <= n,
            r@ == joined(all.take(i as int), sep@),
        decreases n - i,
    {
        let ghost t = all.take(i + 1);
        assert(t.drop_last() =~= all.take(i as int));
        assert(t.last() == parts@[i as int]@);
        if i > 0 {
            r.append(sep);
            r.append(parts[i].as_str());
        } else {
            r.append(parts[i].as_str());
            assert(r@ =~= parts@[0]@);
        }
        i = i + 1;
    }
    assert(all.take(n as int) =~= all);
    r
}

// ---------------------------------------------------------------------------
// Numbers
// ---------------------------------------------------------------------------

/// The character of a decimal digit.
pub open spec fn digit_char(d: nat) -> char {
    if d == 0 {
        '0'
    } else if d == 1 {
        '1'
    } else if d == 2 {
        '2'
    } else if d == 3 {
        '3'
    } else if d == 4 {
        '4'
    } else if d == 5 {
        '5'
    } else if d == 6 {
        '6'
    } else if d == 7 {
        '7'
    } else if d == 8 {
        '8'
    } else {
        '9'
    }
}

/// The decimal digits of `n`, without leading zeros.
pub open spec fn dec(n: nat) -> Seq<char>
    decreases n,
{
    if n < 10 {
        seq![digit_char(n)]
    } else {
        dec(n / 10).push(digit_char(n % 10))
    }
}

/// `n` in decimal, with a minus sign where it is negative.
pub open spec fn dec_int(n: int) -> Seq<char> {
    if n < 0 {
        "-"@ + dec((-n) as nat)
    } else {
        dec(n as nat)
    }
}

/// `s` with zeros put before it until it has `width` characters.
pub open spec fn zero_padded(s: Seq<char>, width: nat) -> Seq<char>
    decreases width - s.len(),
{
    if s.len() >= width {
        s
    } else {
        zero_padded(seq!['0'] + s, width)
    }
}

fn digit_text(d: u128) -> (r: &'static str)
    requires
        d < 10,
    ensures
        r@ == seq![digit_char(d as nat)],
{
    proof {
        reveal_strlit("0");
        reveal_strlit("1");
        reveal_strlit("2");
        reveal_strlit("3");
        reveal_strlit("4");
        reveal_strlit("5");
        reveal_strlit("6");
        reveal_strlit("7");
        reveal_strlit("8");
        reveal_strlit("9");
    }
    let r = if d == 0 {
        "0"
    } else if d == 1 {
        "1"
    } else if d == 2 {
        "2"
    } else if d == 3 {
        "3"
    } else if d == 4 {
        "4"
    } else if d == 5 {
        "5"
    } else if d == 6 {
        "6"
    } else if d == 7 {
        "7"
    } else if d == 8 {
        "8"
    } else {
        "9"
    };
    assert(r@ =~= seq![digit_char(d as nat)]);
    r
}

/// `n` in decimal.
pub fn decimal(n: u128) -> (r: String)
    ensures
        r@ == dec(n as nat),
    decreases n,
{
    if n < 10 {
        digit_text(n).to_owned()
    } else {
        let head = decimal(n / 10);
        let r = head.concat(digit_text(n % 10));
        assert(r@ =~= dec(n as nat));
        r
    }
}

/// `n` in decimal, with a minus sign where it is negative.
pub fn decimal_i32(n: i32) -> (r: String)
    ensures
        r@ == dec_int(n as int),
{
    if n < 0 {
        let m: i64 = -(n as i64);
        "-".to_owned().concat(decimal(m as u128).as_str())
    } else {
        decimal(n as u128)
    }
}

/// `n` in decimal, with zeros put before it until it has `width` characters.
pub fn decimal_padded(n: u32, width: usize) -> (r: String)
    ensures
        r@ == zero_padded(dec(n as nat), width as nat),
{
    let mut r: String = decimal(n as u128);
    let ghost goal = zero_padded(r@, width as nat);
    let mut k: usize = r.as_str().unicode_len();
    while k < width
        invariant
            k == r@.len(),
            goal == zero_padded(r@, width as nat),
        decreases width - k,
    {
        proof {
            reveal_strlit("0");
        }
        let ghost before = r@;
        r = "0".to_owned().concat(r.as_str());
        assert(r@ =~= seq!['0'] + before);
        k = k + 1;
    }
    r
}

/// The value of a decimal digit, if `c` is one.
pub open spec fn digit_value(c: char) -> Option<nat> {
    if '0' <= c <= '9' {
        Some((c as int - '0' as int) as nat)
    } else {
        None
    }
}

/// The value of a run of decimal digits; the empty run counts as zero.
pub open spec fn digits_value(s: Seq<char>) -> Option<nat>
    decreases s.len(),
{
    if s.len() == 0 {
        Some(0)
    } else {
        match (digits_value(s.drop_last()), digit_value(s.last())) {
            (Some(h), Some(d)) => Some(h * 10 + d),
            _ => None,
        }
    }
}

/// The number that `s` writes: an optional plus sign, then one or more decimal digits.
pub open spec fn natural(s: Seq<char>) -> Option<nat> {
    let digits = if s.len() > 0 && s[0] == '+' {
        s.skip(1)
    } else {
        s
    };
    if digits.len() == 0 {
        None
    } else {
        digits_value(digits)
    }
}

/// What `std` says of a text that is no `u64` in decimal.
pub uninterp spec fn u64_error(s: Seq<char>) -> Seq<char>;

/// Calls `str::parse::<u64>` of `std`.
///
/// Claimed: it succeeds exactly on an optional plus sign followed by one or more decimal
/// digits that write a number below 2^64, with that number; otherwise the text of its error
/// depends on the input alone.
#[verifier::external_body]
pub(crate) fn parse_u64(s: &str) -> (r: Result<u64, String>)
    ensures
        match r {
            Ok(n) => natural_up_to(s@, u64::MAX as nat) == Some(n as nat),
            Err(e) => natural_up_to(s@, u64::MAX as nat) is None && e@ == u64_error(s@),
        },
{
    s.parse::<u64>().map_err(|e| e.to_string())
}

/// The number that `s` writes, if it is at most `max`.
pub open spec fn natural_up_to(s: Seq<char>, max: nat) -> Option<nat> {
    match natural(s) {
        Some(n) => if n <= max {
            Some(n)
        } else {
            None
        },
        None => None,
    }
}

/// What `std` writes for a text under `{:?}`: quoted, with escapes.
pub uninterp spec fn debug_form(s: Seq<char>) -> Seq<char>;

/// Writes a text with `std`'s `Debug` formatting.
///
/// Claimed: what is written depends on the text alone.
#[verifier::external_body]
pub(crate) fn debug_text(s: &str) -> (r: String)
    ensures
        r@ == debug_form(s@),
{
    format!("{s:?}")
}

// ---------------------------------------------------------------------------
// Laws
// ---------------------------------------------------------------------------

/// Whether `part` stands somewhere in `s`.
pub open spec fn mentions(s: Seq<char>, part: Seq<char>) -> bool {
    exists|i: int|
        0 <= i <= s.len() - part.len() && #[trigger] s.subrange(i, i + part.len()) == part
}

/// A text that is put together from three mentions the one in the middle.
pub proof fn lemma_mentions(s: Seq<char>, before: Seq<char>, part: Seq<char>, after: Seq<char>)
    requires
        s == before + part + after,
    ensures
        mentions(s, part),
{
    let i = before.len() as int;
    assert(s.subrange(i, i + part.len()) =~= part);
}

/// A prefix is taken off a text that begins with it, whatever follows it, and off no other; so is
/// a suffix.
pub proof fn law_affixes(s: Seq<char>, affix: Seq<char>, rest: Seq<char>)
    ensures
        without_prefix(affix + rest, affix) == Some(rest),
        without_suffix(rest + affix, affix) == Some(rest),
        without_prefix(s, affix) matches Some(r) ==> s == affix + r,
        without_suffix(s, affix) matches Some(r) ==> s == r + affix,
        without_prefix(s, affix) is None ==> forall|r: Seq<char>| s != #[trigger] (affix + r),
        without_suffix(s, affix) is None ==> forall|r: Seq<char>| s != #[trigger] (r + affix),
{
    assert((affix + rest).take(affix.len() as int) =~= affix);
    assert((affix + rest).skip(affix.len() as int) =~= rest);
    let t = rest + affix;
    assert(t.subrange(rest.len() as int, t.len() as int) =~= affix);
    assert(t.take(t.len() - affix.len()) =~= rest);
    if affix.is_prefix_of(s) {
        assert(s =~= affix + s.skip(affix.len() as int));
    } else {
        assert forall|r: Seq<char>| s != #[trigger] (affix + r) by {
            assert((affix + r).take(affix.len() as int) =~= affix);
        }
    }
    if affix.is_suffix_of(s) {
        assert(s =~= s.take(s.len() - affix.len()) + affix);
    } else {
        assert forall|r: Seq<char>| s != #[trigger] (r + affix) by {
            let u = r + affix;
            assert(u.subrange(r.len() as int, u.len() as int) =~= affix);
        }
    }
}

/// Blanks, tabs and line ends are white space; no printing character of ASCII is.
pub proof fn law_white_space(c: char)
    ensures
        is_white(' ') && is_white('\t') && is_white('\n') && is_white('\r'),
        '!' <= c <= '~' ==> !is_white(c),
{
}

proof fn lemma_trimmed_start(s: Seq<char>) -> (i: int)
    ensures
        0 <= i <= s.len(),
        trimmed_start(s) == s.skip(i),
        forall|k: int| 0 <= k < i ==> is_white(#[trigger] s[k]),
        i < s.len() ==> !is_white(s[i]),
    decreases s.len(),
{
    if s.len() > 0 && is_white(s[0]) {
        let j = lemma_trimmed_start(s.skip(1));
        assert(s.skip(1).skip(j) =~= s.skip(j + 1));
        assert forall|k: int| 0 <= k < j + 1 implies is_white(#[trigger] s[k]) by {
            if k > 0 {
                assert(s.skip(1)[k - 1] == s[k]);
            }
        }
        if j + 1 < s.len() {
            assert(s.skip(1)[j] == s[j + 1]);
        }
        j + 1
    } else {
        assert(s.skip(0) =~= s);
        0
    }
}

proof fn lemma_trimmed_end(s: Seq<char>) -> (j: int)
    ensures
        0 <= j <= s.len(),
        trimmed_end(s) == s.take(j),
        forall|k: int| j <= k < s.len() ==> is_white(#[trigger] s[k]),
        0 < j ==> !is_white(s[j - 1]),
    decreases s.len(),
{
    if s.len() > 0 && is_white(s.last()) {
        let t = s.drop_last();
        let j = lemma_trimmed_end(t);
        assert(t.take(j) =~= s.take(j));
        assert forall|k: int| j <= k < s.len() implies is_white(#[trigger] s[k]) by {
            if k < t.len() {
                assert(t[k] == s[k]);
            }
        }
        if 0 < j {
            assert(t[j - 1] == s[j - 1]);
        }
        j
    } else {
        assert(s.take(s.len() as int) =~= s);
        s.len() as int
    }
}

/// Where trimming cuts at the front: only white space is taken off, and all of it.
pub proof fn law_trimmed_start(s: Seq<char>) -> (i: int)
    ensures
        0 <= i <= s.len(),
        trimmed_start(s) == s.skip(i),
        forall|k: int| 0 <= k < i ==> is_white(#[trigger] s[k]),
        i < s.len() ==> !is_white(s[i]),
{
    lemma_trimmed_start(s)
}

/// Where trimming cuts: what is left lies between two places, only white space lies outside of
/// them, and what is left neither begins nor ends with white space.
pub proof fn law_trimmed(s: Seq<char>) -> (cut: (int, int))
    ensures
        0 <= cut.0 <= cut.1 <= s.len(),
        trimmed(s) == s.subrange(cut.0, cut.1),
        forall|k: int| 0 <= k < cut.0 || cut.1 <= k < s.len() ==> is_white(#[trigger] s[k]),
        cut.0 < cut.1 ==> !is_white(s[cut.0]) && !is_white(s[cut.1 - 1]),
{
    let i = lemma_trimmed_start(s);
    let t = s.skip(i);
    let j = lemma_trimmed_end(t);
    assert(t.take(j) =~= s.subrange(i, i + j));
    assert forall|k: int| 0 <= k < i || i + j <= k < s.len() implies is_white(#[trigger] s[k]) by {
        if k >= i + j {
            assert(t[k - i] == s[k]);
        }
    }
    if 0 < j {
        assert(t[j - 1] == s[i + j - 1]);
    }
    (i, i + j)
}

proof fn lemma_word_len(s: Seq<char>)
    ensures
        word_len(s) <= s.len(),
        forall|k: int| 0 <= k < word_len(s) ==> !is_white(#[trigger] s[k]),
        word_len(s) < s.len() ==> is_white(s[word_len(s) as int]),
    decreases s.len(),
{
    if s.len() > 0 && !is_white(s[0]) {
        let t = s.skip(1);
        lemma_word_len(t);
        assert forall|k: int| 0 <= k < word_len(s) implies !is_white(#[trigger] s[k]) by {
            if k > 0 {
                assert(t[k - 1] == s[k]);
            }
        }
        if word_len(s) < s.len() {
            assert(t[word_len(t) as int] == s[word_len(s) as int]);
        }
    }
}

/// Where the first word of a text lies: only white space stands before it, none within it, and
/// white space or the end of the text behind it. It is empty only where the text is all white
/// space.
pub proof fn law_first_word(s: Seq<char>) -> (cut: (int, int))
    ensures
        0 <= cut.0 <= cut.1 <= s.len(),
        word_at_start(s) == s.subrange(cut.0, cut.1),
        forall|k: int| 0 <= k < cut.0 ==> is_white(#[trigger] s[k]),
        forall|k: int| cut.0 <= k < cut.1 ==> !is_white(#[trigger] s[k]),
        cut.1 < s.len() ==> is_white(s[cut.1]),
        cut.0 == cut.1 ==> cut.0 == s.len(),
{
    let i = lemma_trimmed_start(s);
    let t = s.skip(i);
    lemma_word_len(t);
    let n = word_len(t) as int;
    assert(t.take(n) =~= s.subrange(i, i + n));
    assert forall|k: int| i <= k < i + n implies !is_white(#[trigger] s[k]) by {
        assert(t[k - i] == s[k]);
    }
    if n < t.len() {
        assert(t[n] == s[i + n]);
    }
    (i, i + n)
}

/// A line ends at its first `\n` or `\r\n`, which is not part of it, and what follows is split in
/// the same way; a text without a line end is its own line, and the empty text has none.
pub proof fn law_lines(line: Seq<char>, rest: Seq<char>)
    requires
        !line.contains('\n'),
    ensures
        lines_of(Seq::empty()).len() == 0,
        line.len() > 0 ==> lines_of(line) == seq![line],
        line.len() == 0 || line.last() != '\r' ==> lines_of(line + seq!['\n'] + rest) == seq![line]
            + lines_of(rest),
        lines_of(line + seq!['\r', '\n'] + rest) == seq![line] + lines_of(rest),
{
    assert forall|i: int| 0 <= i < line.len() implies line[i] != '\n' by {
        assert(line.contains(line[i]));
    }
    let n = line.len() as int;
    if n > 0 {
        lemma_find_char_is(line, '\n', n);
    }
    let s = line + seq!['\n'] + rest;
    lemma_find_char_is(s, '\n', n);
    assert(s.take(n) =~= line);
    assert(s.skip(n + 1) =~= rest);
    let t = line + seq!['\r', '\n'] + rest;
    lemma_find_char_is(t, '\n', n + 1);
    assert(t.take(n + 1) =~= line.push('\r'));
    assert(line.push('\r').drop_last() =~= line);
    assert(t.skip(n + 2) =~= rest);
}

/// What stands behind the last of a character is what follows it and does not hold it again; there
/// is nothing behind a character that does not occur.
pub proof fn law_behind_last(before: Seq<char>, c: char, rest: Seq<char>)
    requires
        !rest.contains(c),
    ensures
        behind_last(before + seq![c] + rest, c) == Some(rest),
        behind_last(rest, c) is None,
    decreases rest.len(),
{
    let all = before + seq![c] + rest;
    if rest.len() == 0 {
        assert(all.last() == c);
    } else {
        let shorter = rest.drop_last();
        assert(rest.contains(rest.last()));
        assert(all.last() == rest.last());
        assert(all.drop_last() =~= before + seq![c] + shorter);
        assert forall|d: char| shorter.contains(d) implies rest.contains(d) by {
            let i = shorter.index_of(d);
            assert(rest[i] == d);
        }
        law_behind_last(before, c, shorter);
        assert(rest =~= shorter.push(rest.last()));
    }
}

/// Replacing goes from the left: up to the first occurrence of the pattern nothing changes, that
/// occurrence is replaced, and what follows is treated in the same way. A text without the pattern
/// stays as it is.
pub proof fn law_replaced(before: Seq<char>, pat: Seq<char>, with: Seq<char>, rest: Seq<char>)
    requires
        pat.len() > 0,
        forall|i: int|
            0 <= i < before.len() ==> !pat.is_prefix_of(
                #[trigger] (before + pat + rest).skip(i),
            ),
    ensures
        replaced(before + pat + rest, pat, with) == before + with + replaced(rest, pat, with),
    decreases before.len(),
{
    let s = before + pat + rest;
    if before.len() == 0 {
        assert(s =~= pat + rest);
        assert(s.take(pat.len() as int) =~= pat);
        assert(pat.is_prefix_of(s));
        assert(s.skip(pat.len() as int) =~= rest);
        assert(before + with + replaced(rest, pat, with) =~= with + replaced(rest, pat, with));
    } else {
        let shorter = before.skip(1);
        assert(s.skip(0) =~= s);
        assert(!pat.is_prefix_of(s.skip(0)));
        assert(s.skip(1) =~= shorter + pat + rest);
        assert forall|i: int| 0 <= i < shorter.len() implies !pat.is_prefix_of(
            #[trigger] (shorter + pat + rest).skip(i),
        ) by {
            assert((shorter + pat + rest).skip(i) =~= s.skip(i + 1));
        }
        law_replaced(shorter, pat, with, rest);
        assert(seq![s[0]] + (shorter + with + replaced(rest, pat, with)) =~= before + with
            + replaced(rest, pat, with));
    }
}

/// A text in which the pattern does not occur stays as it is.
pub proof fn law_nothing_to_replace(s: Seq<char>, pat: Seq<char>, with: Seq<char>)
    requires
        pat.len() > 0,
        forall|i: int| 0 <= i < s.len() ==> !pat.is_prefix_of(#[trigger] s.skip(i)),
    ensures
        replaced(s, pat, with) == s,
    decreases s.len(),
{
    if s.len() >= pat.len() {
        assert(s.skip(0) =~= s);
        assert(!pat.is_prefix_of(s.skip(0)));
        let t = s.skip(1);
        assert forall|i: int| 0 <= i < t.len() implies !pat.is_prefix_of(#[trigger] t.skip(i)) by {
            assert(t.skip(i) =~= s.skip(i + 1));
        }
        law_nothing_to_replace(t, pat, with);
        assert(seq![s[0]] + t =~= s);
    }
}

/// Joining two lists joins what they join to; one text alone joins to itself, and none to nothing.
pub proof fn law_joined(a: Seq<Seq<char>>, b: Seq<Seq<char>>, one: Seq<char>, sep: Seq<char>)
    ensures
        joined(Seq::empty(), sep).len() == 0,
        joined(seq![one], sep) == one,
        a.len() > 0 && b.len() > 0 ==> joined(a + b, sep) == joined(a, sep) + sep + joined(b, sep),
    decreases b.len(),
{
    if a.len() > 0 && b.len() > 0 {
        let shorter = b.drop_last();
        assert((a + b).drop_last() =~= a + shorter);
        assert((a + b).last() == b.last());
        if shorter.len() > 0 {
            law_joined(a, shorter, one, sep);
            assert(joined(a, sep) + sep + joined(shorter, sep) + sep + b.last() =~= joined(a, sep)
                + sep + (joined(shorter, sep) + sep + b.last()));
        } else {
            assert(a + shorter =~= a);
        }
    }
}

/// The digits are those of ASCII, in their order.
pub proof fn law_digits(d: nat)
    requires
        d < 10,
    ensures
        digit_char(d) as int == 48 + d,
        digit_value(digit_char(d)) == Some(d),
{
}

proof fn lemma_digits(s: Seq<char>)
    ensures
        digits_value(s) is Some <==> forall|i: int| 0 <= i < s.len() ==> '0' <= #[trigger] s[i]
            <= '9',
    decreases s.len(),
{
    if s.len() > 0 {
        let t = s.drop_last();
        lemma_digits(t);
        assert(forall|i: int| 0 <= i < t.len() ==> t[i] == s[i]);
        assert(s.last() == s[s.len() - 1]);
        if digits_value(s) is Some {
            assert forall|i: int| 0 <= i < s.len() implies '0' <= #[trigger] s[i] <= '9' by {
                if i < t.len() {
                    assert('0' <= t[i] <= '9');
                }
            }
        }
        if forall|i: int| 0 <= i < s.len() ==> '0' <= #[trigger] s[i] <= '9' {
            assert forall|i: int| 0 <= i < t.len() implies '0' <= #[trigger] t[i] <= '9' by {
                assert('0' <= s[i] <= '9');
            }
        }
    }
}

/// A number that is written in decimal reads back as that number, with or without a plus sign. It
/// is written without leading zeros.
pub proof fn law_decimal_reads_back(n: nat, max: nat)
    ensures
        natural(dec(n)) == Some(n),
        natural(seq!['+'] + dec(n)) == Some(n),
        natural_up_to(dec(n), max) == if n <= max {
            Some(n)
        } else {
            None
        },
        dec(n).len() > 0,
        forall|i: int| 0 <= i < dec(n).len() ==> '0' <= #[trigger] dec(n)[i] <= '9',
        dec(n)[0] == '0' ==> n == 0,
{
    lemma_dec_value(n);
    lemma_digits(dec(n));
    assert('0' <= dec(n)[0] <= '9');
    assert((seq!['+'] + dec(n)).skip(1) =~= dec(n));
}

proof fn lemma_dec_value(n: nat)
    ensures
        dec(n).len() > 0,
        digits_value(dec(n)) == Some(n),
        dec(n)[0] == '0' ==> n == 0,
    decreases n,
{
    if n < 10 {
        law_digits(n);
        assert(dec(n).drop_last().len() == 0);
        assert(digits_value(dec(n).drop_last()) == Some(0nat));
    } else {
        lemma_dec_value(n / 10);
        law_digits(n % 10);
        assert(dec(n).drop_last() =~= dec(n / 10));
        assert(dec(n).last() == digit_char(n % 10));
        assert(dec(n)[0] == dec(n / 10)[0]);
    }
}

/// What reads as a number is digits alone, at least one, behind at most one plus sign.
pub proof fn law_only_digits_read(s: Seq<char>)
    ensures
        natural(s) is Some ==> {
            let from = if s[0] == '+' {
                1int
            } else {
                0int
            };
            from < s.len() && forall|i: int| from <= i < s.len() ==> '0' <= #[trigger] s[i] <= '9'
        },
{
    let digits = if s.len() > 0 && s[0] == '+' {
        s.skip(1)
    } else {
        s
    };
    lemma_digits(digits);
    if natural(s) is Some {
        let from = if s[0] == '+' {
            1int
        } else {
            0int
        };
        assert forall|i: int| from <= i < s.len() implies '0' <= #[trigger] s[i] <= '9' by {
            assert(digits[i - from] == s[i]);
        }
    }
}

/// A negative number is written as a minus sign and its opposite.
pub proof fn law_minus_sign(n: nat)
    ensures
        n > 0 ==> dec_int(-(n as int)) == seq!['-'] + dec(n),
        dec_int(n as int) == dec(n),
{
    reveal_strlit("-");
    assert("-"@ =~= seq!['-']);
}

/// Padding puts zeros before a text, as many as it lacks to the width, and never cuts it.
pub proof fn law_zero_padded(s: Seq<char>, width: nat)
    ensures
        zero_padded(s, width).len() == if s.len() >= width {
            s.len()
        } else {
            width
        },
        s.is_suffix_of(zero_padded(s, width)),
        forall|i: int|
            0 <= i < zero_padded(s, width).len() - s.len() ==> #[trigger] zero_padded(s, width)[i]
                == '0',
    decreases width - s.len(),
{
    if s.len() < width {
        let t = seq!['0'] + s;
        law_zero_padded(t, width);
        let p = zero_padded(t, width);
        let at = p.len() - s.len();
        assert(p.subrange(at - 1, p.len() as int) =~= t);
        assert(p.subrange(at, p.len() as int) =~= s) by {
            assert forall|i: int| 0 <= i < s.len() implies p[at + i] == s[i] by {
                assert(p.subrange(at - 1, p.len() as int)[i + 1] == t[i + 1]);
            }
        }
        assert forall|i: int| 0 <= i < at implies #[trigger] p[i] == '0' by {
            if i == at - 1 {
                assert(p.subrange(at - 1, p.len() as int)[0] == t[0]);
            }
        }
    } else {
        assert(s.subrange(0, s.len() as int) =~= s);
    }
}

/// A run of characters without white space that white space surrounds trims to that run.
pub proof fn law_trimmed_run(before: Seq<char>, run: Seq<char>, after: Seq<char>)
    requires
        forall|i: int| 0 <= i < before.len() ==> is_white(#[trigger] before[i]),
        forall|i: int| 0 <= i < run.len() ==> !is_white(#[trigger] run[i]),
        forall|i: int| 0 <= i < after.len() ==> is_white(#[trigger] after[i]),
        run.len() > 0,
    ensures
        trimmed(before + run + after) == run,
{
    let s = before + run + after;
    let b = before.len() as int;
    let e = b + run.len();
    let cut = law_trimmed(s);
    assert(s[b] == run[0]);
    assert(s[e - 1] == run[run.len() - 1]);
    if cut.0 > b {
        assert(is_white(s[b]));
    }
    if cut.1 < e {
        assert(is_white(s[e - 1]));
    }
    if cut.0 < b {
        assert(s[cut.0] == before[cut.0]);
    }
    if cut.1 > e {
        assert(s[cut.1 - 1] == after[cut.1 - 1 - e]);
    }
    assert(s.subrange(b, e) =~= run);
}

/// The first word of a text is the run of characters that stands behind its leading white space, up
/// to the next white space.
pub proof fn law_word_is_first_run(before: Seq<char>, run: Seq<char>, after: Seq<char>)
    requires
        forall|i: int| 0 <= i < before.len() ==> is_white(#[trigger] before[i]),
        forall|i: int| 0 <= i < run.len() ==> !is_white(#[trigger] run[i]),
        after.len() > 0 ==> is_white(after[0]),
        run.len() > 0,
    ensures
        word_at_start(before + run + after) == run,
{
    let s = before + run + after;
    let b = before.len() as int;
    let e = b + run.len();
    let cut = law_first_word(s);
    assert(s[b] == run[0]);
    if cut.0 > b {
        assert(is_white(s[b]));
    }
    if cut.0 < b {
        assert(s[cut.0] == before[cut.0]);
        if cut.0 < cut.1 {
            assert(!is_white(s[cut.0]));
        }
    }
    if cut.1 < e {
        assert(s[cut.1] == run[cut.1 - b]);
    }
    if cut.1 > e {
        assert(s[e] == after[0]);
        assert(!is_white(s[e]));
    }
    assert(s.subrange(b, e) =~= run);
}

proof fn lemma_leading_zero(s: Seq<char>)
    ensures
        digits_value(seq!['0'] + s) == digits_value(s),
    decreases s.len(),
{
    let t = seq!['0'] + s;
    if s.len() == 0 {
        assert(t.drop_last() =~= Seq::<char>::empty());
        assert(digits_value(t.drop_last()) == Some(0nat));
        assert(t.last() == '0');
    } else {
        lemma_leading_zero(s.drop_last());
        assert(t.drop_last() =~= seq!['0'] + s.drop_last());
        assert(t.last() == s.last());
    }
}

/// Padding a number with zeros does not change the number.
pub proof fn law_padding_keeps_value(s: Seq<char>, width: nat)
    ensures
        digits_value(zero_padded(s, width)) == digits_value(s),
    decreases width - s.len(),
{
    if s.len() < width {
        lemma_leading_zero(s);
        law_padding_keeps_value(seq!['0'] + s, width);
    }
}

/// A number below a power of ten has no more digits than that power has zeros, and padded to that
/// width it has just as many digits and still reads as that number.
pub proof fn law_padded_number(n: nat, width: nat)
    requires
        width == 2 && n < 100 || width == 4 && n < 10000,
    ensures
        zero_padded(dec(n), width).len() == width,
        digits_value(zero_padded(dec(n), width)) == Some(n),
{
    reveal_with_fuel(dec, 5);
    law_zero_padded(dec(n), width);
    law_padding_keeps_value(dec(n), width);
    lemma_dec_value(n);
}

/// The models of texts: an optional text is there or not, and a list of texts is modelled one by one.
pub proof fn law_text_models(o: Option<String>, b: Option<&str>, v: Seq<String>, i: int)
    ensures
        o matches Some(s) ==> opt_string(o) == Some(s@),
        o is None ==> opt_string(o) is None,
        b matches Some(s) ==> opt_text(b) == Some(s@),
        b is None ==> opt_text(b) is None,
        texts(v).len() == v.len(),
        0 <= i < v.len() ==> texts(v)[i] == v[i]@,
{
}

} // verus!
