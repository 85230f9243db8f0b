//! Verified text utilities: trimming, prefix/suffix stripping, substring
//! search and replacement, joining, and decimal conversion. These back the
//! prompt builders, the generated-output cleanup, and the key construction
//! of the key-value backend.

use vstd::prelude::*;
use vstd::string::*;

verus! {

/// The whitespace characters recognised by the trimming functions.
pub open spec fn is_space(c: char) -> bool {
    c == ' ' || c == '\t' || c == '\n' || c == '\r'
}

/// Number of whitespace characters at the start of `s`.
pub open spec fn leading_spaces(s: Seq<char>) -> int
    decreases s.len(),
{
    if s.len() == 0 {
        0
    } else if is_space(s[0]) {
        1 + leading_spaces(s.drop_first())
    } else {
        0
    }
}

/// Number of whitespace characters at the end of `s`.
pub open spec fn trailing_spaces(s: Seq<char>) -> int
    decreases s.len(),
{
    if s.len() == 0 {
        0
    } else if is_space(s.last()) {
        1 + trailing_spaces(s.drop_last())
    } else {
        0
    }
}

/// `s` with leading whitespace removed.
pub open spec fn trim_start_spec(s: Seq<char>) -> Seq<char> {
    s.subrange(leading_spaces(s), s.len() as int)
}

/// `s` with trailing whitespace removed.
pub open spec fn trim_end_spec(s: Seq<char>) -> Seq<char> {
    s.subrange(0, s.len() - trailing_spaces(s))
}

/// `s` with whitespace removed from both ends.
pub open spec fn trim_spec(s: Seq<char>) -> Seq<char> {
    trim_end_spec(trim_start_spec(s))
}

/// `s` starts with `p`.
pub open spec fn starts_with_spec(s: Seq<char>, p: Seq<char>) -> bool {
    p.len() <= s.len() && s.subrange(0, p.len() as int) == p
}

/// `s` ends with `p`.
pub open spec fn ends_with_spec(s: Seq<char>, p: Seq<char>) -> bool {
    p.len() <= s.len() && s.subrange(s.len() - p.len(), s.len() as int) == p
}

/// `s` with every leading copy of the non-empty pattern `p` removed.
pub open spec fn strip_prefix_rec(s: Seq<char>, p: Seq<char>) -> Seq<char>
    decreases s.len(),
{
    if p.len() > 0 && starts_with_spec(s, p) {
        strip_prefix_rec(s.skip(p.len() as int), p)
    } else {
        s
    }
}

/// `s` with every trailing copy of the non-empty pattern `p` removed.
pub open spec fn strip_suffix_rec(s: Seq<char>, p: Seq<char>) -> Seq<char>
    decreases s.len(),
{
    if p.len() > 0 && ends_with_spec(s, p) {
        strip_suffix_rec(s.take(s.len() - p.len()), p)
    } else {
        s
    }
}

/// `s` with every occurrence of the non-empty pattern `p` replaced by `r`,
/// scanning left to right over non-overlapping matches.
pub open spec fn replace_spec(s: Seq<char>, p: Seq<char>, r: Seq<char>) -> Seq<char>
    decreases s.len(),
{
    if s.len() == 0 {
        s
    } else if p.len() > 0 && starts_with_spec(s, p) {
        r + replace_spec(s.skip(p.len() as int), p, r)
    } else {
        seq![s[0]] + replace_spec(s.skip(1), p, r)
    }
}

/// The elements of `parts` joined with the separator `sep`.
pub open spec fn join_spec(parts: Seq<Seq<char>>, sep: Seq<char>) -> Seq<char>
    decreases parts.len(),
{
    if parts.len() == 0 {
        Seq::empty()
    } else if parts.len() == 1 {
        parts[0]
    } else {
        join_spec(parts.drop_last(), sep) + sep + parts.last()
    }
}

/// The decimal digit character for a value between 0 and 9.
pub open spec fn dec_digit(d: int) -> char {
    ((48 + d) as u8) as char
}

/// The decimal representation of the non-negative integer `n`.
pub open spec fn dec_str(n: int) -> Seq<char>
    decreases n,
{
    if n < 10 {
        seq![dec_digit(n)]
    } else {
        dec_str(n / 10) + seq![dec_digit(n % 10)]
    }
}

/// `c` is a decimal digit.
pub open spec fn is_digit(c: char) -> bool {
    48 <= c as int && c as int <= 57
}

/// The value of the digit character `c`.
pub open spec fn digit_val(c: char) -> int {
    c as int - 48
}

/// Every character of `s` is a decimal digit.
pub open spec fn all_digits(s: Seq<char>) -> bool {
    forall|i: int| 0 <= i < s.len() ==> is_digit(s[i])
}

/// The numeric value of a digit string.
pub open spec fn digits_val(s: Seq<char>) -> int
    decreases s.len(),
{
    if s.len() == 0 {
        0
    } else {
        digits_val(s.drop_last()) * 10 + digit_val(s.last())
    }
}

/// What parsing a decimal string as a `u32` yields: the value when `s` is a
/// non-empty all-digit string whose value fits, and nothing otherwise.
pub open spec fn parse_u32_spec(s: Seq<char>) -> Option<u32> {
    if s.len() > 0 && all_digits(s) && digits_val(s) <= u32::MAX {
        Some(digits_val(s) as u32)
    } else {
        None
    }
}

proof fn lemma_leading_spaces_props(s: Seq<char>)
    ensures
        0 <= leading_spaces(s) <= s.len(),
        forall|j: int| 0 <= j < leading_spaces(s) ==> is_space(s[j]),
        leading_spaces(s) < s.len() ==> !is_space(s[leading_spaces(s)]),
    decreases s.len(),
{
    if s.len() == 0 {
    } else if is_space(s[0]) {
        lemma_leading_spaces_props(s.drop_first());
        assert forall|j: int| 0 <= j < leading_spaces(s) implies is_space(s[j]) by {
            if j >= 1 {
                assert(s.drop_first()[j - 1] == s[j]);
            }
        }
        if leading_spaces(s) < s.len() {
            assert(s.drop_first()[leading_spaces(s) - 1] == s[leading_spaces(s)]);
        }
    }
}

proof fn lemma_trailing_spaces_props(s: Seq<char>)
    ensures
        0 <= trailing_spaces(s) <= s.len(),
        forall|j: int| s.len() - trailing_spaces(s) <= j < s.len() ==> is_space(s[j]),
        trailing_spaces(s) < s.len() ==> !is_space(s[s.len() - trailing_spaces(s) - 1]),
    decreases s.len(),
{
    if s.len() == 0 {
    } else if is_space(s.last()) {
        lemma_trailing_spaces_props(s.drop_last());
        assert forall|j: int| s.len() - trailing_spaces(s) <= j < s.len() implies is_space(
            s[j],
        ) by {
            if j < s.len() - 1 {
                assert(s.drop_last()[j] == s[j]);
            }
        }
        if trailing_spaces(s) < s.len() {
            assert(s.drop_last()[s.len() - trailing_spaces(s) - 1] == s[s.len() - trailing_spaces(
                s,
            ) - 1]);
        }
    }
}

/// Whether `c` is one of the recognised whitespace characters.
pub fn is_space_char(c: char) -> (r: bool)
    ensures
        r == is_space(c),
{
    c == ' ' || c == '\t' || c == '\n' || c == '\r'
}

/// The index of the first non-whitespace character of `s` (its length if
/// `s` is all whitespace).
fn first_non_space(s: &str) -> (i: usize)
    ensures
        i as int == leading_spaces(s@),
        i <= s@.len(),
{
    let n: usize = s.unicode_len();
    let mut i: usize = 0;
    loop
        invariant
            n == s@.len(),
            0 <= i <= n,
            forall|j: int| 0 <= j < i ==> is_space(s@[j]),
        ensures
            0 <= i <= n,
            forall|j: int| 0 <= j < i ==> is_space(s@[j]),
            i == n || !is_space(s@[i as int]),
        decreases n - i,
    {
        if i == n {
            break ;
        }
        if !is_space_char(s.get_char(i)) {
            break ;
        }
        i = i + 1;
    }
    proof {
        lemma_leading_spaces_props(s@);
        let l = leading_spaces(s@);
        if (i as int) < l {
            assert(is_space(s@[i as int]));
            assert(false);
        }
        if (i as int) > l {
            assert(is_space(s@[l]));
            assert(false);
        }
    }
    i
}

/// One past the index of the last non-whitespace character of `s` at or
/// after position `from` (`from` if that range is all whitespace).
fn last_non_space_from(s: &str, from: usize) -> (j: usize)
    requires
        from <= s@.len(),
    ensures
        from <= j <= s@.len(),
        s@.len() - j == trailing_spaces(s@.subrange(from as int, s@.len() as int)) || j == from,
        j as int - from == (s@.subrange(from as int, s@.len() as int)).len() - trailing_spaces(
            s@.subrange(from as int, s@.len() as int),
        ),
{
    let ghost t = s@.subrange(from as int, s@.len() as int);
    let n: usize = s.unicode_len();
    let mut j: usize = n;
    loop
        invariant
            n == s@.len(),
            from <= j <= n,
            forall|k: int| j <= k < n ==> is_space(s@[k]),
        ensures
            from <= j <= n,
            forall|k: int| j <= k < n ==> is_space(s@[k]),
            j == from || !is_space(s@[j - 1]),
        decreases j,
    {
        if j == from {
            break ;
        }
        if !is_space_char(s.get_char(j - 1)) {
            break ;
        }
        j = j - 1;
    }
    proof {
        lemma_trailing_spaces_props(t);
        let tl = t.len() - trailing_spaces(t);
        // translate facts about t to facts about s
        assert(forall|k: int| 0 <= k < t.len() ==> t[k] == s@[from + k]);
        if (j as int) - from < tl {
            // s[from + tl - 1] onward are spaces in t; position j..n all spaces,
            // and t's char at (j - from) .. are spaces, so trailing count covers it
            assert(is_space(t[j - from]) || j == from) by {
                if j > from {
                    assert(!is_space(s@[j - 1]));
                }
            }
            // j - from < tl means t has a non-space at tl - 1 >= j - from
            assert(!is_space(t[tl - 1]));
            assert(is_space(s@[from + tl - 1]));
            assert(false);
        }
        if (j as int) - from > tl {
            // then j > from, so s[j - 1] is not a space; but j - 1 - from lies
            // in t's trailing-space region [tl, t.len()), a contradiction
            assert(j > from);
            assert(!is_space(s@[j - 1]));
            assert(tl <= j - 1 - from < t.len());
            assert(is_space(t[j - 1 - from]));
            assert(t[j - 1 - from] == s@[j - 1]);
            assert(false);
        }
        assert(j as int - from == tl);
    }
    j
}

/// `s` with whitespace removed from both ends.
pub fn trim(s: &str) -> (r: String)
    ensures
        r@ == trim_spec(s@),
{
    let n: usize = s.unicode_len();
    let i: usize = first_non_space(s);
    let j: usize = last_non_space_from(s, i);
    let out = s.substring_char(i, j);
    proof {
        let t = s@.subrange(i as int, s@.len() as int);
        assert(trim_start_spec(s@) == t);
        assert(trim_end_spec(t) =~= s@.subrange(i as int, j as int));
    }
    String::from_str(out)
}

/// `s` with leading whitespace removed.
pub fn trim_start(s: &str) -> (r: String)
    ensures
        r@ == trim_start_spec(s@),
{
    let n: usize = s.unicode_len();
    let i: usize = first_non_space(s);
    String::from_str(s.substring_char(i, n))
}

/// Whether `s` contains the pattern `p` starting at character position `at`.
pub fn starts_with_at(s: &str, p: &str, at: usize) -> (r: bool)
    requires
        at <= s@.len(),
    ensures
        r == starts_with_spec(s@.skip(at as int), p@),
{
    let n: usize = s.unicode_len();
    let m: usize = p.unicode_len();
    if m > n - at {
        return false;
    }
    let mut k: usize = 0;
    loop
        invariant
            n == s@.len(),
            m == p@.len(),
            at + m <= n,
            0 <= k <= m,
            forall|j: int| 0 <= j < k ==> s@[at + j] == p@[j],
        ensures
            (k == m && forall|j: int| 0 <= j < m ==> s@[at + j] == p@[j]) || (k < m && s@[at + k as int]
                != p@[k as int]),
        decreases m - k,
    {
        if k == m {
            break ;
        }
        if s.get_char(at + k) != p.get_char(k) {
            break ;
        }
        k = k + 1;
    }
    let r = k == m;
    proof {
        let t = s@.skip(at as int);
        assert(forall|j: int| 0 <= j < t.len() ==> t[j] == s@[at + j]);
        if r {
            assert(t.subrange(0, m as int) =~= p@);
        } else {
            if starts_with_spec(t, p@) {
                assert(t.subrange(0, m as int)[k as int] == p@[k as int]);
                assert(false);
            }
        }
    }
    r
}

/// Whether `s` starts with `p`.
pub fn starts_with(s: &str, p: &str) -> (r: bool)
    ensures
        r == starts_with_spec(s@, p@),
{
    let r = starts_with_at(s, p, 0);
    proof {
        assert(s@.skip(0) =~= s@);
    }
    r
}

/// Whether `s` ends with `p`.
pub fn ends_with(s: &str, p: &str) -> (r: bool)
    ensures
        r == ends_with_spec(s@, p@),
{
    let n: usize = s.unicode_len();
    let m: usize = p.unicode_len();
    if m > n {
        return false;
    }
    let r = starts_with_at(s, p, n - m);
    proof {
        let t = s@.skip(n - m);
        assert(t =~= s@.subrange(s@.len() - p@.len(), s@.len() as int));
        if r {
            assert(t.subrange(0, m as int) =~= t);
        } else {
            if ends_with_spec(s@, p@) {
                assert(t.subrange(0, m as int) =~= t);
                assert(false);
            }
        }
    }
    r
}

/// `s` with every leading copy of the non-empty pattern `p` removed.
pub fn strip_prefix_repeat(s: &str, p: &str) -> (r: String)
    requires
        p@.len() > 0,
    ensures
        r@ == strip_prefix_rec(s@, p@),
{
    let n: usize = s.unicode_len();
    let m: usize = p.unicode_len();
    let mut i: usize = 0;
    proof {
        assert(s@.skip(0) =~= s@);
    }
    loop
        invariant
            n == s@.len(),
            m == p@.len(),
            m > 0,
            0 <= i <= n,
            strip_prefix_rec(s@, p@) == strip_prefix_rec(s@.skip(i as int), p@),
        ensures
            0 <= i <= n,
            strip_prefix_rec(s@, p@) == strip_prefix_rec(s@.skip(i as int), p@),
            !starts_with_spec(s@.skip(i as int), p@),
        decreases n - i,
    {
        if !starts_with_at(s, p, i) {
            break ;
        }
        proof {
            let t = s@.skip(i as int);
            assert(strip_prefix_rec(t, p@) == strip_prefix_rec(t.skip(m as int), p@));
            assert(t.skip(m as int) =~= s@.skip(i + m));
        }
        i = i + m;
    }
    proof {
        assert(strip_prefix_rec(s@.skip(i as int), p@) == s@.skip(i as int));
    }
    String::from_str(s.substring_char(i, n))
}

/// `s` with every trailing copy of the non-empty pattern `p` removed.
pub fn strip_suffix_repeat(s: &str, p: &str) -> (r: String)
    requires
        p@.len() > 0,
    ensures
        r@ == strip_suffix_rec(s@, p@),
{
    let n: usize = s.unicode_len();
    let m: usize = p.unicode_len();
    let mut j: usize = n;
    proof {
        assert(s@.take(n as int) =~= s@);
    }
    loop
        invariant
            n == s@.len(),
            m == p@.len(),
            m > 0,
            0 <= j <= n,
            strip_suffix_rec(s@, p@) == strip_suffix_rec(s@.take(j as int), p@),
        ensures
            0 <= j <= n,
            strip_suffix_rec(s@, p@) == strip_suffix_rec(s@.take(j as int), p@),
            !ends_with_spec(s@.take(j as int), p@),
        decreases j,
    {
        let ghost t = s@.take(j as int);
        if j < m {
            proof {
                assert(!ends_with_spec(t, p@));
            }
            break ;
        }
        // compare the window [j - m, j) with p directly
        let mut k: usize = 0;
        let mut matches: bool = true;
        loop
            invariant
                n == s@.len(),
                m == p@.len(),
                m <= j <= n,
                0 <= k <= m,
                matches ==> forall|x: int| 0 <= x < k ==> s@[j - m + x] == p@[x],
                !matches ==> exists|x: int| 0 <= x < m && s@[j - m + x] != p@[x],
            ensures
                matches ==> forall|x: int| 0 <= x < m ==> s@[j - m + x] == p@[x],
                !matches ==> exists|x: int| 0 <= x < m && s@[j - m + x] != p@[x],
            decreases m - k,
        {
            if k == m {
                break ;
            }
            if s.get_char(j - m + k) != p.get_char(k) {
                matches = false;
                break ;
            }
            k = k + 1;
        }
        proof {
            let w = t.subrange(t.len() - p@.len(), t.len() as int);
            assert(forall|x: int| 0 <= x < m ==> w[x] == s@[j - m + x]);
            if matches {
                assert(w =~= p@);
                assert(ends_with_spec(t, p@));
            } else {
                if ends_with_spec(t, p@) {
                    let x = choose|x: int| 0 <= x < m && s@[j - m + x] != p@[x];
                    assert(w[x] == p@[x]);
                    assert(false);
                }
            }
        }
        if !matches {
            break ;
        }
        proof {
            assert(strip_suffix_rec(t, p@) == strip_suffix_rec(t.take(t.len() - m), p@));
            assert(t.take(t.len() - m) =~= s@.take(j - m));
        }
        j = j - m;
    }
    proof {
        assert(strip_suffix_rec(s@.take(j as int), p@) == s@.take(j as int));
    }
    String::from_str(s.substring_char(0, j))
}

/// `s` with every occurrence of the non-empty pattern `p` replaced by `sub`.
pub fn replace_all(s: &str, p: &str, sub: &str) -> (out: String)
    requires
        p@.len() > 0,
    ensures
        out@ == replace_spec(s@, p@, sub@),
{
    let n: usize = s.unicode_len();
    let m: usize = p.unicode_len();
    let mut out = String::new();
    let mut i: usize = 0;
    proof {
        assert(s@.skip(0) =~= s@);
        assert(out@ + s@ =~= s@);
    }
    loop
        invariant
            n == s@.len(),
            m == p@.len(),
            m > 0,
            0 <= i <= n,
            replace_spec(s@, p@, sub@) == out@ + replace_spec(s@.skip(i as int), p@, sub@),
        ensures
            i == n,
            replace_spec(s@, p@, sub@) == out@ + replace_spec(s@.skip(i as int), p@, sub@),
        decreases n - i,
    {
        if i == n {
            break ;
        }
        let ghost t = s@.skip(i as int);
        if starts_with_at(s, p, i) {
            out.append(sub);
            proof {
                assert(t.len() > 0);
                assert(replace_spec(t, p@, sub@) == sub@ + replace_spec(t.skip(m as int), p@, sub@));
                assert(t.skip(m as int) =~= s@.skip(i + m));
            }
            i = i + m;
        } else {
            let piece = s.substring_char(i, i + 1);
            out.append(piece);
            proof {
                assert(t.len() > 0);
                assert(replace_spec(t, p@, sub@) == seq![t[0]] + replace_spec(
                    t.skip(1),
                    p@,
                    sub@,
                ));
                assert(piece@ =~= seq![t[0]]);
                assert(t.skip(1) =~= s@.skip(i + 1));
            }
            i = i + 1;
        }
    }
    proof {
        assert(s@.skip(n as int) =~= Seq::<char>::empty());
        assert(replace_spec(Seq::<char>::empty(), p@, sub@) == Seq::<char>::empty());
        assert(out@ =~= out@ + Seq::<char>::empty());
    }
    out
}

/// The elements of `parts` joined with the separator `sep`.
pub fn join_with(parts: &Vec<String>, sep: &str) -> (out: String)
    ensures
        out@ == join_spec(parts.deep_view(), sep@),
{
    let mut out = String::new();
    let mut i: usize = 0;
    let n: usize = parts.len();
    while i < n
        invariant
            n == parts@.len(),
            0 <= i <= n,
            parts.deep_view().len() == n,
            forall|j: int| 0 <= j < n ==> parts.deep_view()[j] == parts@[j]@,
            out@ == join_spec(parts.deep_view().subrange(0, i as int), sep@),
        decreases n - i,
    {
        if i > 0 {
            out.append(sep);
        }
        out.append(parts[i].as_str());
        proof {
            let dv = parts.deep_view();
            let pre = dv.subrange(0, i as int);
            let cur = dv.subrange(0, i + 1);
            assert(cur.drop_last() =~= pre);
            assert(cur.last() == dv[i as int]);
            if i == 0 {
                assert(cur.len() == 1);
                assert(join_spec(cur, sep@) == cur[0]);
            } else {
                assert(cur.len() >= 2);
                assert(join_spec(cur, sep@) == join_spec(pre, sep@) + sep@ + cur.last());
            }
        }
        i = i + 1;
    }
    proof {
        assert(parts.deep_view().subrange(0, n as int) =~= parts.deep_view());
    }
    out
}

/// The one-character string for a decimal digit value.
fn digit_str(d: u32) -> (r: &'static str)
    requires
        d < 10,
    ensures
        r@ =~= seq![dec_digit(d as int)],
{
    proof {
        reveal_strlit("0");
        reveal_strlit("1");
        reveal_strlit("2");
        reveal_strlit("3");
        reveal_strlit("4");
        reveal_strlit("5");
        reveal_strlit("6");
        reveal_strlit("7");
        reveal_strlit("8");
        reveal_strlit("9");
    }
    if d == 0 {
        "0"
    } else if d == 1 {
        "1"
    } else if d == 2 {
        "2"
    } else if d == 3 {
        "3"
    } else if d == 4 {
        "4"
    } else if d == 5 {
        "5"
    } else if d == 6 {
        "6"
    } else if d == 7 {
        "7"
    } else if d == 8 {
        "8"
    } else {
        "9"
    }
}

/// The decimal representation of `n`.
pub fn u32_to_string(n: u32) -> (r: String)
    ensures
        r@ == dec_str(n as int),
    decreases n,
{
    if n < 10 {
        String::from_str(digit_str(n))
    } else {
        let mut r = u32_to_string(n / 10);
        r.append(digit_str(n % 10));
        r
    }
}

proof fn lemma_digits_val_bounds(s: Seq<char>)
    requires
        all_digits(s),
    ensures
        digits_val(s) >= 0,
    decreases s.len(),
{
    if s.len() > 0 {
        assert(all_digits(s.drop_last())) by {
            assert(forall|i: int| 0 <= i < s.len() - 1 ==> s.drop_last()[i] == s[i]);
        }
        lemma_digits_val_bounds(s.drop_last());
    }
}

proof fn lemma_digits_val_prefix_le(s: Seq<char>, i: int)
    requires
        all_digits(s),
        0 <= i <= s.len(),
    ensures
        digits_val(s.subrange(0, i)) <= digits_val(s),
    decreases s.len() - i,
{
    if i < s.len() {
        let a = s.subrange(0, i);
        let b = s.subrange(0, i + 1);
        assert(b.drop_last() =~= a);
        assert(all_digits(b)) by {
            assert(forall|k: int| 0 <= k < b.len() ==> b[k] == s[k]);
        }
        assert(all_digits(a)) by {
            assert(forall|k: int| 0 <= k < a.len() ==> a[k] == s[k]);
        }
        lemma_digits_val_bounds(a);
        assert(digits_val(b) == digits_val(a) * 10 + digit_val(b.last()));
        assert(is_digit(s[i]));
        assert(digit_val(b.last()) >= 0);
        assert(digits_val(a) * 10 >= digits_val(a)) by (nonlinear_arith)
            requires
                digits_val(a) >= 0,
        ;
        lemma_digits_val_prefix_le(s, i + 1);
        assert(s.subrange(0, s.len() as int) =~= s);
    } else {
        assert(s.subrange(0, i) =~= s);
    }
}

/// Parses a decimal string as a `u32`: the value when `s` is non-empty, all
/// digits, and fits; `None` otherwise.
pub fn parse_u32(s: &str) -> (r: Option<u32>)
    ensures
        r == parse_u32_spec(s@),
{
    let n: usize = s.unicode_len();
    if n == 0 {
        return None;
    }
    let mut acc: u64 = 0;
    let mut i: usize = 0;
    while i < n
        invariant
            n == s@.len(),
            n > 0,
            0 <= i <= n,
            all_digits(s@.subrange(0, i as int)),
            acc as int == digits_val(s@.subrange(0, i as int)),
            acc <= u32::MAX,
        decreases n - i,
    {
        let c = s.get_char(i);
        let cv = c as u32;
        if cv < 48 || cv > 57 {
            proof {
                assert(!is_digit(s@[i as int]));
                assert(!all_digits(s@));
            }
            return None;
        }
        let d: u64 = (cv - 48) as u64;
        acc = acc * 10 + d;
        proof {
            let a = s@.subrange(0, i as int);
            let b = s@.subrange(0, i + 1);
            assert(b.drop_last() =~= a);
            assert(b.last() == s@[i as int]);
            assert(forall|k: int| 0 <= k < b.len() ==> b[k] == s@[k]);
            assert(digits_val(b) == digits_val(a) * 10 + digit_val(s@[i as int]));
        }
        if acc > u32::MAX as u64 {
            proof {
                let b = s@.subrange(0, i + 1);
                if parse_u32_spec(s@) is Some {
                    lemma_digits_val_prefix_le(s@, i + 1);
                    assert(false);
                }
            }
            return None;
        }
        i = i + 1;
    }
    proof {
        assert(s@.subrange(0, n as int) =~= s@);
    }
    Some(acc as u32)
}


/// The cleanup applied to generated output: surrounding whitespace goes,
/// then any leading code-fence markers with an optional `json` tag, then
/// any trailing fence markers.
pub open spec fn clean_llm_spec(s: Seq<char>) -> Seq<char> {
    let t0 = trim_spec(s);
    if starts_with_spec(t0, "```"@) {
        let t1 = trim_start_spec(strip_prefix_rec(t0, "```"@));
        let t2 = if starts_with_spec(t1, "json"@) {
            trim_start_spec(strip_prefix_rec(t1, "json"@))
        } else {
            t1
        };
        if ends_with_spec(t2, "```"@) {
            trim_spec(strip_suffix_rec(t2, "```"@))
        } else {
            t2
        }
    } else {
        t0
    }
}

} // verus!
