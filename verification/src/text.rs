//! Verified text helpers: decimal parsing and rendering, and splitting a
//! string on a separator character. These are the building blocks of the
//! credential parser and the process-probe output readers.
use vstd::prelude::*;

verus! {

/// An ASCII decimal digit.
pub open spec fn is_digit(c: char) -> bool {
    48 <= c as int <= 57
}

/// Every character of `s` is an ASCII decimal digit.
pub open spec fn all_digits(s: Seq<char>) -> bool {
    forall|i: int| 0 <= i < s.len() ==> is_digit(#[trigger] s[i])
}

/// The value of `s` read as a big-endian decimal numeral.
pub open spec fn digits_val(s: Seq<char>) -> int
    decreases s.len(),
{
    if s.len() == 0 {
        0
    } else {
        digits_val(s.drop_last()) * 10 + (s.last() as int - 48)
    }
}

/// Splits `s` at every occurrence of `sep`. The result always has one more
/// element than `s` has separators; fields may be empty.
pub open spec fn split_on(s: Seq<char>, sep: char) -> Seq<Seq<char>>
    decreases s.len(),
{
    if s.len() == 0 {
        seq![Seq::<char>::empty()]
    } else {
        let rest = split_on(s.drop_first(), sep);
        if s[0] == sep {
            seq![Seq::<char>::empty()].add(rest)
        } else {
            rest.update(0, seq![s[0]].add(rest[0]))
        }
    }
}

/// A split is never empty.
pub proof fn lemma_split_on_len(s: Seq<char>, sep: char)
    ensures
        split_on(s, sep).len() >= 1,
    decreases s.len(),
{
    if s.len() > 0 {
        lemma_split_on_len(s.drop_first(), sep);
    }
}

/// A string without the separator splits into the single field that is the
/// whole string.
pub proof fn lemma_split_on_absent(s: Seq<char>, sep: char)
    requires
        forall|j: int| 0 <= j < s.len() ==> s[j] != sep,
    ensures
        split_on(s, sep) == seq![s],
    decreases s.len(),
{
    if s.len() == 0 {
        assert(split_on(s, sep) =~~= seq![s]);
    } else {
        lemma_split_on_absent(s.drop_first(), sep);
        lemma_split_on_len(s.drop_first(), sep);
        assert(seq![s[0]].add(s.drop_first()) =~= s);
        assert(split_on(s, sep) =~~= seq![s]);
    }
}

/// If the first occurrence of `sep` in `s` is at `m`, the split is the prefix
/// before `m` followed by the split of the suffix after `m`.
pub proof fn lemma_split_on_first(s: Seq<char>, sep: char, m: int)
    requires
        0 <= m < s.len(),
        s[m] == sep,
        forall|j: int| 0 <= j < m ==> s[j] != sep,
    ensures
        split_on(s, sep) == seq![s.take(m)].add(split_on(s.skip(m + 1), sep)),
    decreases m,
{
    if m == 0 {
        assert(s.take(0) =~= Seq::<char>::empty());
        assert(s.skip(1) =~= s.drop_first());
        assert(split_on(s, sep) =~~= seq![s.take(0)].add(split_on(s.skip(1), sep)));
    } else {
        let t = s.drop_first();
        lemma_split_on_first(t, sep, m - 1);
        lemma_split_on_len(t.skip(m), sep);
        let rest = split_on(t, sep);
        assert(rest[0] == t.take(m - 1));
        assert(seq![s[0]].add(t.take(m - 1)) =~= s.take(m));
        assert(t.skip(m) =~= s.skip(m + 1));
        assert(split_on(s, sep) =~~= seq![s.take(m)].add(split_on(s.skip(m + 1), sep)));
    }
}

/// Reading more digits can only keep a numeral above a bound.
pub proof fn lemma_digits_val_grows(s: Seq<char>, i: int, bound: int)
    requires
        0 <= i <= s.len(),
        bound >= 0,
        all_digits(s),
        digits_val(s.take(i)) > bound,
    ensures
        digits_val(s) > bound,
    decreases s.len() - i,
{
    if i < s.len() {
        let v = digits_val(s.take(i));
        let t = s.take(i + 1);
        assert(t.drop_last() =~= s.take(i));
        assert(digits_val(t) == v * 10 + (s[i] as int - 48));
        assert(is_digit(s[i]));
        assert(v * 10 >= v) by (nonlinear_arith)
            requires
                v > 0,
        ;
        lemma_digits_val_grows(s, i + 1, bound);
    } else {
        assert(s.take(i) =~= s);
    }
}

/// Parses `s` as an unsigned decimal numeral. Returns the value exactly when
/// `s` is a non-empty digit string whose value fits in `u64`.
pub fn parse_u64_dec(s: &str) -> (r: Option<u64>)
    ensures
        r is Some <==> (s@.len() > 0 && all_digits(s@) && digits_val(s@) <= u64::MAX),
        r matches Some(v) ==> v == digits_val(s@),
{
    let n = s.unicode_len();
    if n == 0 {
        return None;
    }
    let mut acc: u64 = 0;
    let mut i: usize = 0;
    while i < n
        invariant
            0 < n == s@.len(),
            0 <= i <= n,
            all_digits(s@.take(i as int)),
            acc == digits_val(s@.take(i as int)),
        decreases n - i,
    {
        let c = s.get_char(i);
        let d = c as u32;
        if d < 48 || d > 57 {
            assert(!is_digit(s@[i as int]));
            return None;
        }
        let step: u128 = (acc as u128) * 10 + ((d - 48) as u128);
        proof {
            assert(s@.take(i + 1).drop_last() =~= s@.take(i as int));
            assert(digits_val(s@.take(i + 1)) == acc * 10 + (d - 48));
        }
        if step > u64::MAX as u128 {
            proof {
                if all_digits(s@) && digits_val(s@) <= u64::MAX {
                    lemma_digits_val_grows(s@, i + 1, u64::MAX as int);
                }
            }
            return None;
        }
        acc = step as u64;
        i += 1;
    }
    proof {
        assert(s@.take(n as int) =~= s@);
    }
    Some(acc)
}

/// Parses `s` as a decimal `u32`: some value exactly when `s` is a non-empty
/// digit string whose value fits.
pub fn parse_u32_dec(s: &str) -> (r: Option<u32>)
    ensures
        r is Some <==> (s@.len() > 0 && all_digits(s@) && digits_val(s@) <= u32::MAX),
        r matches Some(v) ==> v == digits_val(s@),
{
    match parse_u64_dec(s) {
        Some(v) if v <= u32::MAX as u64 => Some(v as u32),
        _ => None,
    }
}

/// Parses `s` as a decimal `u16`: some value exactly when `s` is a non-empty
/// digit string whose value fits.
pub fn parse_u16_dec(s: &str) -> (r: Option<u16>)
    ensures
        r is Some <==> (s@.len() > 0 && all_digits(s@) && digits_val(s@) <= u16::MAX),
        r matches Some(v) ==> v == digits_val(s@),
{
    match parse_u64_dec(s) {
        Some(v) if v <= u16::MAX as u64 => Some(v as u16),
        _ => None,
    }
}

/// Splits `s` at every occurrence of `sep`, as `split_on` describes.
pub fn split_str(s: &str, sep: char) -> (fields: Vec<String>)
    ensures
        fields@.map_values(|f: String| f@) == split_on(s@, sep),
{
    let n = s.unicode_len();
    let mut fields: Vec<String> = Vec::new();
    let mut start: usize = 0;
    let mut i: usize = 0;
    proof {
        assert(s@.skip(0) =~= s@);
        assert(fields@.map_values(|f: String| f@).add(split_on(s@, sep)) =~~= split_on(s@, sep));
    }
    while i < n
        invariant
            n == s@.len(),
            0 <= start <= i <= n,
            forall|j: int| start <= j < i ==> s@[j] != sep,
            split_on(s@, sep) == fields@.map_values(|f: String| f@).add(
                split_on(s@.skip(start as int), sep),
            ),
        decreases n - i,
    {
        let c = s.get_char(i);
        if c == sep {
            let field = String::from_str(s.substring_char(start, i));
            proof {
                let suf = s@.skip(start as int);
                assert(forall|j: int| 0 <= j < i - start ==> suf[j] != sep);
                lemma_split_on_first(suf, sep, i - start);
                assert(suf.take(i - start) =~= s@.subrange(start as int, i as int));
                assert(suf.skip(i - start + 1) =~= s@.skip(i + 1));
                assert(fields@.push(field).map_values(|f: String| f@) =~~= fields@.map_values(
                    |f: String| f@,
                ).push(field@));
                assert(split_on(s@, sep) =~~= fields@.push(field).map_values(|f: String| f@).add(
                    split_on(s@.skip(i + 1), sep),
                ));
            }
            fields.push(field);
            start = i + 1;
        }
        i += 1;
    }
    let last = String::from_str(s.substring_char(start, n));
    proof {
        let suf = s@.skip(start as int);
        assert(forall|j: int| 0 <= j < suf.len() ==> suf[j] != sep);
        lemma_split_on_absent(suf, sep);
        assert(suf =~= s@.subrange(start as int, n as int));
        assert(fields@.push(last).map_values(|f: String| f@) =~~= fields@.map_values(
            |f: String| f@,
        ).push(last@));
        assert(split_on(s@, sep) =~~= fields@.push(last).map_values(|f: String| f@));
    }
    fields.push(last);
    fields
}

/// The index of the first element satisfying `p`, if any.
pub open spec fn first_where<T>(s: Seq<T>, p: spec_fn(T) -> bool) -> Option<int>
    decreases s.len(),
{
    if s.len() == 0 {
        None
    } else if p(s[0]) {
        Some(0int)
    } else {
        match first_where(s.drop_first(), p) {
            None => None,
            Some(i) => Some(i + 1),
        }
    }
}

/// `first_where` names the first satisfying index: it satisfies `p`, no
/// earlier index does, and a `None` means no index does.
pub proof fn lemma_first_where<T>(s: Seq<T>, p: spec_fn(T) -> bool)
    ensures
        match first_where(s, p) {
            Some(i) => 0 <= i < s.len() && p(s[i]) && forall|j: int| 0 <= j < i ==> !p(#[trigger] s[j]),
            None => forall|j: int| 0 <= j < s.len() ==> !p(#[trigger] s[j]),
        },
    decreases s.len(),
{
    if s.len() > 0 && !p(s[0]) {
        lemma_first_where(s.drop_first(), p);
        assert(forall|j: int| 1 <= j < s.len() ==> #[trigger] s[j] == s.drop_first()[j - 1]);
    }
}

/// The index of the last element satisfying `p`, if any.
pub open spec fn last_where<T>(s: Seq<T>, p: spec_fn(T) -> bool) -> Option<int>
    decreases s.len(),
{
    if s.len() == 0 {
        None
    } else if p(s.last()) {
        Some(s.len() - 1)
    } else {
        last_where(s.drop_last(), p)
    }
}

/// `last_where` names the last satisfying index: it satisfies `p`, no
/// later index does, and a `None` means no index does.
pub proof fn lemma_last_where<T>(s: Seq<T>, p: spec_fn(T) -> bool)
    ensures
        match last_where(s, p) {
            Some(i) => 0 <= i < s.len() && p(s[i]) && forall|j: int|
                i < j < s.len() ==> !p(#[trigger] s[j]),
            None => forall|j: int| 0 <= j < s.len() ==> !p(#[trigger] s[j]),
        },
    decreases s.len(),
{
    if s.len() > 0 && !p(s.last()) {
        lemma_last_where(s.drop_last(), p);
        assert(forall|j: int| 0 <= j < s.len() - 1 ==> #[trigger] s[j] == s.drop_last()[j]);
    }
}

/// `needle` occurs in `s` starting at `i`.
pub open spec fn match_at(s: Seq<char>, needle: Seq<char>, i: int) -> bool {
    0 <= i && i + needle.len() <= s.len() && s.subrange(i, i + needle.len() as int) == needle
}

/// The first index at which `needle` occurs in `s`, if any.
pub open spec fn first_match(s: Seq<char>, needle: Seq<char>) -> Option<int>
    decreases s.len(),
{
    if s.len() < needle.len() {
        None
    } else if s.take(needle.len() as int) == needle {
        Some(0int)
    } else if s.len() == 0 {
        None
    } else {
        match first_match(s.drop_first(), needle) {
            None => None,
            Some(i) => Some(i + 1),
        }
    }
}

/// `first_match` names the first occurrence: the needle matches there, at
/// no earlier index, and a `None` means it matches nowhere.
pub proof fn lemma_first_match(s: Seq<char>, needle: Seq<char>)
    ensures
        match first_match(s, needle) {
            Some(i) => match_at(s, needle, i) && forall|j: int| 0 <= j < i ==> !match_at(s, needle, j),
            None => forall|j: int| !match_at(s, needle, j),
        },
    decreases s.len(),
{
    let m = needle.len() as int;
    if s.len() >= m && s.take(m) == needle {
        assert(s.take(m) =~= s.subrange(0, m));
    } else {
        if s.len() >= m {
            assert(s.take(m) =~= s.subrange(0, m));
            assert(!match_at(s, needle, 0));
        }
        if s.len() == 0 {
            assert(forall|j: int| !match_at(s, needle, j));
        } else {
            lemma_first_match(s.drop_first(), needle);
            assert forall|j: int| 1 <= j implies (match_at(s, needle, j) <==> match_at(
                s.drop_first(),
                needle,
                j - 1,
            )) by {
                if 0 <= j - 1 && j - 1 + m <= s.drop_first().len() {
                    assert(s.subrange(j, j + m) =~= s.drop_first().subrange(j - 1, j - 1 + m));
                }
            }
        }
    }
}

/// A character the ASCII trim drops: space, tab, newline, carriage return
/// or form feed.
pub open spec fn is_ascii_ws(c: char) -> bool {
    c == ' ' || c == '\t' || c == '\n' || c == '\r' || c == '\u{c}'
}

/// A character the ASCII trim keeps.
pub open spec fn nonws_pred() -> spec_fn(char) -> bool {
    |c: char| !is_ascii_ws(c)
}

/// `s` with leading and trailing ASCII whitespace removed.
pub open spec fn trim_ws(s: Seq<char>) -> Seq<char> {
    match first_where(s, nonws_pred()) {
        None => Seq::<char>::empty(),
        Some(a) => match last_where(s, nonws_pred()) {
            None => Seq::<char>::empty(),
            Some(b) => s.subrange(a, b + 1),
        },
    }
}

/// Finds the first occurrence of `needle` in `s`.
pub fn find_sub(s: &str, needle: &str) -> (r: Option<usize>)
    ensures
        r is Some <==> first_match(s@, needle@) is Some,
        r matches Some(i) ==> first_match(s@, needle@) == Some(i as int),
{
    let n = s.unicode_len();
    let m = needle.unicode_len();
    proof {
        lemma_first_match(s@, needle@);
    }
    if m > n {
        return None;
    }
    if m == 0 {
        proof {
            assert(s@.take(0) =~= needle@);
        }
        return Some(0);
    }
    let mut i: usize = 0;
    while i <= n - m
        invariant
            1 <= m <= n == s@.len(),
            m == needle@.len(),
            0 <= i <= n - m + 1,
            forall|j: int| 0 <= j < i ==> !match_at(s@, needle@, j),
        decreases n - i,
    {
        let mut k: usize = 0;
        let mut hit = true;
        while k < m
            invariant
                m <= n == s@.len(),
                m == needle@.len(),
                0 <= i <= n - m,
                0 <= k <= m,
                hit ==> forall|t: int| 0 <= t < k ==> s@[i + t] == needle@[t],
                !hit ==> !match_at(s@, needle@, i as int),
            decreases m - k,
        {
            if s.get_char(i + k) != needle.get_char(k) {
                proof {
                    if match_at(s@, needle@, i as int) {
                        assert(s@.subrange(i as int, i + m)[k as int] == needle@[k as int]);
                    }
                }
                hit = false;
                k = m;
            } else {
                k += 1;
            }
        }
        if hit {
            proof {
                assert forall|t: int| 0 <= t < m implies s@.subrange(i as int, i + m)[t]
                    == needle@[t] by {
                    assert(s@[i + t] == needle@[t]);
                }
                assert(s@.subrange(i as int, i + m) =~= needle@);
                assert(match_at(s@, needle@, i as int));
                lemma_first_match(s@, needle@);
            }
            return Some(i);
        }
        i += 1;
    }
    proof {
        lemma_first_match(s@, needle@);
    }
    None
}

/// The decimal numeral of `n` (no sign, no leading zeros except for zero
/// itself).
pub open spec fn dec_str(n: int) -> Seq<char>
    decreases n,
{
    if n < 10 {
        seq![(48 + n) as char]
    } else {
        dec_str(n / 10).push((48 + n % 10) as char)
    }
}

fn digit_str(d: u16) -> (r: &'static str)
    requires
        d < 10,
    ensures
        r@ == seq![(48 + d as int) as char],
{
    let r = match d {
        0 => "0",
        1 => "1",
        2 => "2",
        3 => "3",
        4 => "4",
        5 => "5",
        6 => "6",
        7 => "7",
        8 => "8",
        _ => "9",
    };
    proof {
        reveal_strlit("0");
        reveal_strlit("1");
        reveal_strlit("2");
        reveal_strlit("3");
        reveal_strlit("4");
        reveal_strlit("5");
        reveal_strlit("6");
        reveal_strlit("7");
        reveal_strlit("8");
        reveal_strlit("9");
        assert(r@ =~= seq![(48 + d as int) as char]);
    }
    r
}

/// Appends the decimal numeral of `n` to `out`.
pub fn push_dec_u16(out: &mut String, n: u16)
    ensures
        final(out)@ == old(out)@ + dec_str(n as int),
    decreases n,
{
    if n < 10 {
        out.append(digit_str(n));
    } else {
        push_dec_u16(out, n / 10);
        out.append(digit_str(n % 10));
        proof {
            assert(old(out)@ + dec_str((n / 10) as int) + dec_str((n % 10) as int) =~= old(out)@
                + dec_str(n as int));
        }
    }
}

} // verus!
