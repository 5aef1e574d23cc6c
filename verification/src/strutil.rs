//! Small verified helpers over strings viewed as character sequences.

use vstd::prelude::*;

verus! {

/// Character-wise string equality.
pub fn str_eq(a: &str, b: &str) -> (r: bool)
    ensures
        r == (a@ == b@),
{
    let alen = a.unicode_len();
    let blen = b.unicode_len();
    if alen != blen {
        return false;
    }
    let mut i: usize = 0;
    while i < alen
        invariant
            alen == a@.len(),
            blen == b@.len(),
            alen == blen,
            i <= alen,
            forall|j: int| 0 <= j < i ==> a@[j] == b@[j],
        decreases alen - i,
    {
        if a.get_char(i) != b.get_char(i) {
            return false;
        }
        i += 1;
    }
    proof {
        assert(a@ =~= b@);
    }
    true
}

/// The whitespace characters recognized when trimming input tokens.
pub open spec fn is_space_char(c: char) -> bool {
    c == ' ' || c == '\t' || c == '\n' || c == '\r'
}

pub fn is_space(c: char) -> (r: bool)
    ensures
        r == is_space_char(c),
{
    c == ' ' || c == '\t' || c == '\n' || c == '\r'
}

/// `s` without its leading whitespace.
pub open spec fn spec_trim_front(s: Seq<char>) -> Seq<char>
    decreases s.len(),
{
    if s.len() > 0 && is_space_char(s[0]) {
        spec_trim_front(s.drop_first())
    } else {
        s
    }
}

/// `s` without its trailing whitespace.
pub open spec fn spec_trim_back(s: Seq<char>) -> Seq<char>
    decreases s.len(),
{
    if s.len() > 0 && is_space_char(s[s.len() - 1]) {
        spec_trim_back(s.drop_last())
    } else {
        s
    }
}

/// `s` without leading and trailing whitespace.
pub open spec fn spec_trim(s: Seq<char>) -> Seq<char> {
    spec_trim_back(spec_trim_front(s))
}

proof fn lemma_trim_front_skip(s: Seq<char>, i: int)
    requires
        0 <= i <= s.len(),
        forall|j: int| 0 <= j < i ==> is_space_char(s[j]),
        i == s.len() || !is_space_char(s[i]),
    ensures
        spec_trim_front(s) == s.skip(i),
    decreases i,
{
    if i == 0 {
        assert(s.skip(0) =~= s);
    } else {
        assert(is_space_char(s[0]));
        assert(s.drop_first() =~= s.skip(1));
        assert(forall|j: int| 0 <= j < i - 1 ==> is_space_char(s.skip(1)[j]));
        lemma_trim_front_skip(s.skip(1), i - 1);
        assert(s.skip(1).skip(i - 1) =~= s.skip(i));
    }
}

proof fn lemma_trim_back_take(s: Seq<char>, m: int)
    requires
        0 <= m <= s.len(),
        forall|j: int| m <= j < s.len() ==> is_space_char(s[j]),
        m == 0 || !is_space_char(s[m - 1]),
    ensures
        spec_trim_back(s) == s.take(m),
    decreases s.len() - m,
{
    if m == s.len() {
        assert(s.take(m) =~= s);
    } else {
        assert(is_space_char(s[s.len() - 1]));
        assert(s.drop_last() =~= s.take(s.len() - 1));
        assert(forall|j: int| m <= j < s.len() - 1 ==> is_space_char(s.drop_last()[j]));
        lemma_trim_back_take(s.drop_last(), m);
        assert(s.drop_last().take(m) =~= s.take(m));
    }
}

/// `s` without leading and trailing whitespace, as a borrowed slice.
pub fn trim(s: &str) -> (r: &str)
    ensures
        r@ == spec_trim(s@),
{
    let len = s.unicode_len();
    let mut a: usize = 0;
    while a < len && is_space(s.get_char(a))
        invariant
            len == s@.len(),
            a <= len,
            forall|j: int| 0 <= j < a ==> is_space_char(s@[j]),
        decreases len - a,
    {
        a += 1;
    }
    let mut b: usize = len;
    while b > a && is_space(s.get_char(b - 1))
        invariant
            len == s@.len(),
            a <= b <= len,
            forall|j: int| b <= j < len ==> is_space_char(s@[j]),
        decreases b,
    {
        b -= 1;
    }
    proof {
        lemma_trim_front_skip(s@, a as int);
        assert(forall|j: int| b - a <= j < s@.skip(a as int).len() ==> is_space_char(
            s@.skip(a as int)[j],
        ));
        lemma_trim_back_take(s@.skip(a as int), b - a);
        assert(s@.subrange(a as int, b as int) =~= s@.skip(a as int).take(b - a));
    }
    s.substring_char(a, b)
}

/// Whether `s` holds nothing but whitespace.
pub fn is_blank(s: &str) -> (r: bool)
    ensures
        r == (spec_trim(s@).len() == 0),
{
    let t = trim(s);
    t.unicode_len() == 0
}

/// `s` cut to at most `max` characters, with an ellipsis marking the cut.
pub fn truncate(s: &str, max: usize) -> (r: String)
    ensures
        s@.len() > max ==> r@ == s@.take(max as int) + "..."@,
        s@.len() <= max ==> r@ == s@,
{
    if s.unicode_len() > max {
        let mut out = s.substring_char(0, max).to_owned();
        out.append("...");
        out
    } else {
        s.to_owned()
    }
}

/// Splitting at the first occurrence of `sep`: the part before it, and what
/// follows it if it occurs at all.
pub open spec fn spec_split_first(s: Seq<char>, sep: Seq<char>) -> (Seq<char>, Option<Seq<char>>)
    decreases s.len(),
{
    if s.len() < sep.len() || sep.len() == 0 {
        (s, None)
    } else if s.take(sep.len() as int) == sep {
        (Seq::empty(), Some(s.skip(sep.len() as int)))
    } else {
        let r = spec_split_first(s.drop_first(), sep);
        (seq![s[0]] + r.0, r.1)
    }
}

pub proof fn lemma_split_first_rest_len(s: Seq<char>, sep: Seq<char>)
    requires
        sep.len() >= 1,
    ensures
        spec_split_first(s, sep).1 matches Some(rest) ==> rest.len() <= s.len() - sep.len(),
    decreases s.len(),
{
    if s.len() < sep.len() {
    } else if s.take(sep.len() as int) == sep {
    } else {
        lemma_split_first_rest_len(s.drop_first(), sep);
    }
}

/// Where the first occurrence of `sep` starts at index `i`, the split yields
/// exactly what stands before `i` and what follows the occurrence.
pub proof fn lemma_split_first_at(s: Seq<char>, sep: Seq<char>, i: int)
    requires
        sep.len() >= 1,
        0 <= i,
        i + sep.len() <= s.len(),
        s.subrange(i, i + sep.len()) == sep,
        forall|j: int| 0 <= j < i ==> #[trigger] s.subrange(j, j + sep.len()) != sep,
    ensures
        spec_split_first(s, sep) == (s.take(i), Some(s.skip(i + sep.len()))),
    decreases i,
{
    if i == 0 {
        assert(s.take(sep.len() as int) == s.subrange(0, sep.len() as int));
        assert(s.take(0) =~= Seq::<char>::empty());
    } else {
        assert(s.subrange(0int, 0int + sep.len()) != sep);
        assert(s.take(sep.len() as int) =~= s.subrange(0int, 0int + sep.len()));
        let t = s.drop_first();
        assert(t =~= s.skip(1));
        assert(t.subrange(i - 1, i - 1 + sep.len()) =~= s.subrange(i, i + sep.len()));
        assert forall|j: int| 0 <= j < i - 1 implies #[trigger] t.subrange(j, j + sep.len())
            != sep by {
            assert(t.subrange(j, j + sep.len()) =~= s.subrange(j + 1, j + 1 + sep.len()));
        }
        lemma_split_first_at(t, sep, i - 1);
        assert(seq![s[0]] + t.take(i - 1) =~= s.take(i));
        assert(t.skip(i - 1 + sep.len()) =~= s.skip(i + sep.len()));
    }
}

/// Where `sep` occurs nowhere, the split yields the whole string.
pub proof fn lemma_split_first_none(s: Seq<char>, sep: Seq<char>)
    requires
        sep.len() >= 1,
        forall|j: int| 0 <= j && j + sep.len() <= s.len() ==> #[trigger] s.subrange(j, j + sep.len()) != sep,
    ensures
        spec_split_first(s, sep) == (s, None::<Seq<char>>),
    decreases s.len(),
{
    if s.len() < sep.len() {
    } else {
        assert(s.subrange(0int, 0int + sep.len()) != sep);
        assert(s.take(sep.len() as int) =~= s.subrange(0int, 0int + sep.len()));
        let t = s.drop_first();
        assert(t =~= s.skip(1));
        assert forall|j: int| 0 <= j && j + sep.len() <= t.len() implies #[trigger] t.subrange(
            j,
            j + sep.len(),
        ) != sep by {
            assert(t.subrange(j, j + sep.len()) =~= s.subrange(j + 1, j + 1 + sep.len()));
        }
        lemma_split_first_none(t, sep);
        assert(seq![s[0]] + t =~= s);
    }
}

/// Whether the character occurs in the string.
pub open spec fn spec_has_char(s: Seq<char>, c: char) -> bool {
    exists|i: int| 0 <= i < s.len() && s[i] == c
}

/// Gluing a separator-free part onto a separated tail splits back at the
/// seam: the part never holds the separator's first character, so no earlier
/// occurrence exists.
pub proof fn lemma_split_first_of_concat(p: Seq<char>, sep: Seq<char>, rest: Seq<char>)
    requires
        sep.len() >= 1,
        !spec_has_char(p, sep[0]),
    ensures
        spec_split_first(p + sep + rest, sep) == (p, Some(rest)),
{
    let s = p + sep + rest;
    assert(s.subrange(p.len() as int, p.len() + sep.len() as int) =~= sep);
    assert forall|j: int| 0 <= j < p.len() implies #[trigger] s.subrange(j, j + sep.len())
        != sep by {
        if s.subrange(j, j + sep.len()) == sep {
            assert(s.subrange(j, j + sep.len())[0] == s[j]);
            assert(s[j] == p[j]);
            assert(p[j] == sep[0]);
        }
    }
    lemma_split_first_at(s, sep, p.len() as int);
    assert(s.take(p.len() as int) =~= p);
    assert(s.skip(p.len() + sep.len() as int) =~= rest);
}

/// A string free of the separator's first character holds no occurrence of
/// the separator at all.
pub proof fn lemma_split_first_absent(p: Seq<char>, sep: Seq<char>)
    requires
        sep.len() >= 1,
        !spec_has_char(p, sep[0]),
    ensures
        spec_split_first(p, sep) == (p, None::<Seq<char>>),
{
    assert forall|j: int| 0 <= j && j + sep.len() <= p.len() implies #[trigger] p.subrange(
        j,
        j + sep.len(),
    ) != sep by {
        if p.subrange(j, j + sep.len()) == sep {
            assert(p.subrange(j, j + sep.len())[0] == p[j]);
            assert(p[j] == sep[0]);
        }
    }
    lemma_split_first_none(p, sep);
}

/// The index where the first occurrence of `sep` starts, if it occurs.
pub fn find_sep(s: &str, sep: &str) -> (r: Option<usize>)
    requires
        sep@.len() >= 1,
    ensures
        r matches Some(i) ==> i + sep@.len() <= s@.len() && s@.subrange(i as int, i + sep@.len())
            == sep@ && (forall|j: int| 0 <= j < i ==> #[trigger] s@.subrange(j, j + sep@.len()) != sep@),
        r is None ==> forall|j: int|
            0 <= j && j + sep@.len() <= s@.len() ==> #[trigger] s@.subrange(j, j + sep@.len()) != sep@,
{
    let slen = s.unicode_len();
    let seplen = sep.unicode_len();
    if seplen > slen {
        return None;
    }
    let mut j: usize = 0;
    while j <= slen - seplen
        invariant
            slen == s@.len(),
            seplen == sep@.len(),
            1 <= seplen <= slen,
            j <= slen - seplen + 1,
            forall|j2: int| 0 <= j2 < j ==> #[trigger] s@.subrange(j2, j2 + sep@.len()) != sep@,
        decreases slen - j,
    {
        if str_eq(s.substring_char(j, j + seplen), sep) {
            return Some(j);
        }
        j += 1;
    }
    None
}

/// The parts glued together with `sep` between consecutive parts.
pub open spec fn spec_join(parts: Seq<Seq<char>>, sep: Seq<char>) -> Seq<char>
    decreases parts.len(),
{
    if parts.len() == 0 {
        Seq::empty()
    } else if parts.len() == 1 {
        parts[0]
    } else {
        parts[0] + sep + spec_join(parts.drop_first(), sep)
    }
}

proof fn lemma_join_push(parts: Seq<Seq<char>>, sep: Seq<char>, x: Seq<char>)
    ensures
        parts.len() == 0 ==> spec_join(parts.push(x), sep) == x,
        parts.len() > 0 ==> spec_join(parts.push(x), sep) == spec_join(parts, sep) + sep + x,
    decreases parts.len(),
{
    if parts.len() == 0 {
        assert(parts.push(x)[0] == x);
    } else if parts.len() == 1 {
        assert(parts.push(x).drop_first() =~= seq![x]);
        assert(parts.push(x)[0] == parts[0]);
        assert(seq![x][0] == x);
        assert(spec_join(seq![x], sep) == x);
    } else {
        assert(parts.push(x).drop_first() =~= parts.drop_first().push(x));
        lemma_join_push(parts.drop_first(), sep, x);
        assert(parts.push(x)[0] == parts[0]);
        assert((parts[0] + sep + (spec_join(parts.drop_first(), sep) + sep + x)) =~= (parts[0] + sep
            + spec_join(parts.drop_first(), sep)) + sep + x);
    }
}

/// The parts joined with `sep`, as the view says: nothing for no parts, the
/// lone part itself, or the parts with one separator between neighbours.
pub fn join_strings(parts: &Vec<String>, sep: &str) -> (r: String)
    ensures
        r@ == spec_join(parts@.map_values(|p: String| p@), sep@),
{
    let ghost views = parts@.map_values(|p: String| p@);
    let mut out = String::new();
    let mut i: usize = 0;
    while i < parts.len()
        invariant
            i <= parts.len(),
            views == parts@.map_values(|p: String| p@),
            out@ == spec_join(views.take(i as int), sep@),
        decreases parts.len() - i,
    {
        if i > 0 {
            out.append(sep);
        }
        out.append(parts[i].as_str());
        proof {
            lemma_join_push(views.take(i as int), sep@, views[i as int]);
            assert(views.take(i + 1) =~= views.take(i as int).push(views[i as int]));
        }
        i += 1;
    }
    proof {
        assert(views.take(parts@.len() as int) =~= views);
    }
    out
}

/// The character of one decimal digit.
pub open spec fn spec_digit_char(d: int) -> char {
    if d == 0 {
        '0'
    } else if d == 1 {
        '1'
    } else if d == 2 {
        '2'
    } else if d == 3 {
        '3'
    } else if d == 4 {
        '4'
    } else if d == 5 {
        '5'
    } else if d == 6 {
        '6'
    } else if d == 7 {
        '7'
    } else if d == 8 {
        '8'
    } else {
        '9'
    }
}

/// The decimal form of a non-negative number, most significant digit first,
/// with no leading zero except for the number zero itself.
pub open spec fn spec_dec_string(n: int) -> Seq<char>
    decreases n,
{
    if n < 10 {
        seq![spec_digit_char(n)]
    } else {
        spec_dec_string(n / 10).push(spec_digit_char(n % 10))
    }
}

fn digit_str(d: u32) -> (r: &'static str)
    requires
        d < 10,
    ensures
        r@ == seq![spec_digit_char(d as int)],
{
    let r: &'static str = match d {
        0 => "0",
        1 => "1",
        2 => "2",
        3 => "3",
        4 => "4",
        5 => "5",
        6 => "6",
        7 => "7",
        8 => "8",
        _ => "9",
    };
    proof {
        reveal_strlit("0");
        reveal_strlit("1");
        reveal_strlit("2");
        reveal_strlit("3");
        reveal_strlit("4");
        reveal_strlit("5");
        reveal_strlit("6");
        reveal_strlit("7");
        reveal_strlit("8");
        reveal_strlit("9");
        assert(r@ =~= seq![spec_digit_char(d as int)]);
    }
    r
}

fn push_dec_chars(n: u32, out: &mut String)
    ensures
        final(out)@ == old(out)@ + spec_dec_string(n as int),
    decreases n,
{
    if n < 10 {
        out.append(digit_str(n));
        proof {
            assert(old(out)@ + seq![spec_digit_char(n as int)] =~= old(out)@ + spec_dec_string(
                n as int,
            ));
        }
    } else {
        push_dec_chars(n / 10, out);
        out.append(digit_str(n % 10));
        proof {
            assert(old(out)@ + spec_dec_string(n as int / 10) + seq![
                spec_digit_char(n as int % 10),
            ] =~= old(out)@ + spec_dec_string(n as int));
        }
    }
}

/// The decimal form of `n`.
pub fn u32_to_string(n: u32) -> (r: String)
    ensures
        r@ == spec_dec_string(n as int),
{
    let mut out = String::new();
    push_dec_chars(n, &mut out);
    proof {
        assert(Seq::<char>::empty() + spec_dec_string(n as int) =~= spec_dec_string(n as int));
    }
    out
}

/// Whether one of `names` holds exactly the candidate text.
pub fn contains_str(names: &Vec<String>, candidate: &str) -> (r: bool)
    ensures
        r == (exists|i: int| 0 <= i < names@.len() && names@[i]@ == candidate@),
{
    let mut i: usize = 0;
    while i < names.len()
        invariant
            i <= names@.len(),
            forall|j: int| 0 <= j < i ==> names@[j]@ != candidate@,
        decreases names@.len() - i,
    {
        if str_eq(names[i].as_str(), candidate) {
            return true;
        }
        i += 1;
    }
    false
}

/// The string if present, the fallback text otherwise.
pub fn opt_or_str(o: &Option<String>, d: &str) -> (r: String)
    ensures
        o matches Some(s) ==> r@ == s@,
        o is None ==> r@ == d@,
{
    match o {
        Some(s) => s.clone(),
        None => d.to_owned(),
    }
}

/// Whether `s` begins with `prefix`.
pub open spec fn spec_starts_with(s: Seq<char>, prefix: Seq<char>) -> bool {
    prefix.len() <= s.len() && s.take(prefix.len() as int) == prefix
}

pub fn starts_with(s: &str, prefix: &str) -> (r: bool)
    ensures
        r == spec_starts_with(s@, prefix@),
{
    let plen = prefix.unicode_len();
    let slen = s.unicode_len();
    if plen > slen {
        return false;
    }
    let mut i: usize = 0;
    while i < plen
        invariant
            plen == prefix@.len(),
            slen == s@.len(),
            plen <= slen,
            i <= plen,
            forall|j: int| 0 <= j < i ==> s@[j] == prefix@[j],
        decreases plen - i,
    {
        if s.get_char(i) != prefix.get_char(i) {
            proof {
                assert(s@.take(plen as int)[i as int] != prefix@[i as int]);
            }
            return false;
        }
        i += 1;
    }
    proof {
        assert(s@.take(plen as int) =~= prefix@);
    }
    true
}

} // verus!
