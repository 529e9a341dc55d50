//! Character-level text helpers shared by the command modules.
//!
//! Contracts speak of text as `Seq<char>`; the executable functions work on
//! `Vec<char>` and convert at their edges.

use vstd::prelude::*;
use vstd::string::*;

verus! {

/// The views of a list of strings, element by element.
pub open spec fn views(items: Seq<String>) -> Seq<Seq<char>> {
    items.map_values(|s: String| s@)
}

/// The view of an optional string.
pub open spec fn opt_view(item: Option<String>) -> Option<Seq<char>> {
    match item {
        Some(s) => Some(s@),
        None => None,
    }
}

/// A result that is a text either way, as the contracts see it.
pub open spec fn text_result_view(result: Result<String, String>) -> Result<Seq<char>, Seq<char>> {
    match result {
        Ok(text) => Ok(text@),
        Err(text) => Err(text@),
    }
}

/// Unicode `White_Space`: the characters that trimming removes.
pub open spec fn is_space(c: char) -> bool {
    let n = c as u32;
    ||| 0x09 <= n <= 0x0D
    ||| n == 0x20
    ||| n == 0x85
    ||| n == 0xA0
    ||| n == 0x1680
    ||| 0x2000 <= n <= 0x200A
    ||| n == 0x2028
    ||| n == 0x2029
    ||| n == 0x202F
    ||| n == 0x205F
    ||| n == 0x3000
}

/// `s` without its leading white space.
pub open spec fn trim_start(s: Seq<char>) -> Seq<char>
    decreases s.len(),
{
    if s.len() > 0 && is_space(s[0]) {
        trim_start(s.drop_first())
    } else {
        s
    }
}

/// `s` without its trailing white space.
pub open spec fn trim_end(s: Seq<char>) -> Seq<char>
    decreases s.len(),
{
    if s.len() > 0 && is_space(s.last()) {
        trim_end(s.drop_last())
    } else {
        s
    }
}

/// `s` without leading and trailing white space.
pub open spec fn trim(s: Seq<char>) -> Seq<char> {
    trim_end(trim_start(s))
}

/// True when every character of `s` is white space.
pub open spec fn is_blank(s: Seq<char>) -> bool {
    forall|i: int| 0 <= i < s.len() ==> is_space(#[trigger] s[i])
}

/// The decimal digit `d` as a character.
pub open spec fn digit(d: nat) -> char
    recommends
        d < 10,
{
    (0x30 + d) as u8 as char
}

/// The decimal numeral of `n`, without sign or padding.
pub open spec fn decimal(n: nat) -> Seq<char>
    decreases n,
{
    if n < 10 {
        seq![digit(n)]
    } else {
        decimal(n / 10).push(digit(n % 10))
    }
}

/// ASCII lower-casing of one character; other characters are kept.
pub open spec fn ascii_lower(c: char) -> char {
    if 0x41 <= c as u32 <= 0x5A {
        ((c as u32) + 32) as u8 as char
    } else {
        c
    }
}

/// `s` with every occurrence of the character `from` replaced by `to`.
pub open spec fn replace_char(s: Seq<char>, from: char, to: char) -> Seq<char> {
    s.map_values(|c: char| if c == from { to } else { c })
}

/// Trimming from the left keeps a suffix: the part after the leading run of
/// white space.
pub proof fn lemma_trim_start_is_suffix(s: Seq<char>, k: int)
    requires
        0 <= k <= s.len(),
        forall|i: int| 0 <= i < k ==> is_space(#[trigger] s[i]),
        k < s.len() ==> !is_space(s[k]),
    ensures
        trim_start(s) == s.subrange(k, s.len() as int),
    decreases k,
{
    if k == 0 {
        assert(s.subrange(0, s.len() as int) =~= s);
    } else {
        let t = s.drop_first();
        assert(forall|i: int| 0 <= i < k - 1 ==> is_space(#[trigger] t[i])) by {
            assert forall|i: int| 0 <= i < k - 1 implies is_space(#[trigger] t[i]) by {
                assert(t[i] == s[i + 1]);
            }
        }
        lemma_trim_start_is_suffix(t, k - 1);
        assert(t.subrange(k - 1, t.len() as int) =~= s.subrange(k, s.len() as int));
    }
}

/// Trimming from the right keeps a prefix: the part before the trailing run
/// of white space.
pub proof fn lemma_trim_end_is_prefix(s: Seq<char>, k: int)
    requires
        0 <= k <= s.len(),
        forall|i: int| k <= i < s.len() ==> is_space(#[trigger] s[i]),
        k > 0 ==> !is_space(s[k - 1]),
    ensures
        trim_end(s) == s.subrange(0, k),
    decreases s.len() - k,
{
    if k == s.len() {
        assert(s.subrange(0, k) =~= s);
    } else {
        let t = s.drop_last();
        lemma_trim_end_is_prefix(t, k);
        assert(t.subrange(0, k) =~= s.subrange(0, k));
    }
}

/// Trimmed text is empty exactly when the text is blank.
pub proof fn lemma_trim_empty_iff_blank(s: Seq<char>)
    ensures
        trim(s).len() == 0 <==> is_blank(s),
    decreases s.len(),
{
    if s.len() == 0 {
    } else if is_space(s[0]) {
        let t = s.drop_first();
        lemma_trim_empty_iff_blank(t);
        if is_blank(t) {
            assert forall|i: int| 0 <= i < s.len() implies is_space(#[trigger] s[i]) by {
                if i > 0 {
                    assert(s[i] == t[i - 1]);
                }
            }
        }
        if is_blank(s) {
            assert forall|i: int| 0 <= i < t.len() implies is_space(#[trigger] t[i]) by {
                assert(t[i] == s[i + 1]);
            }
        }
    } else {
        assert(trim_start(s) == s);
        lemma_trim_end_keeps_first(s);
    }
}

/// Trimming from the right never removes a first character that is not
/// white space.
proof fn lemma_trim_end_keeps_first(s: Seq<char>)
    requires
        s.len() > 0,
        !is_space(s[0]),
    ensures
        trim_end(s).len() > 0,
    decreases s.len(),
{
    if is_space(s.last()) {
        assert(s.len() > 1);
        lemma_trim_end_keeps_first(s.drop_last());
    }
}

/// Appends one character. Trusted: `String::push` of the standard library,
/// which is documented to append the given character to the end of the string.
#[verifier::external_body]
pub(crate) fn push_char(s: &mut String, c: char)
    ensures
        final(s)@ == old(s)@.push(c),
{
    s.push(c);
}

/// The text that lossy UTF-8 decoding makes of `bytes`: valid sequences
/// decode to their characters, and each maximal invalid sequence becomes one
/// U+FFFD. It names the result of `String::from_utf8_lossy`.
pub uninterp spec fn lossy_utf8(bytes: Seq<u8>) -> Seq<char>;

/// Decodes `bytes` as UTF-8, replacing what is invalid. Trusted:
/// `String::from_utf8_lossy` of the standard library. The contract names its
/// result, which depends on the bytes alone, and says that valid UTF-8 is
/// decoded as it is.
#[verifier::external_body]
pub(crate) fn lossy_text(bytes: &Vec<u8>) -> (text: String)
    ensures
        text@ == lossy_utf8(bytes@),
        vstd::utf8::valid_utf8(bytes@) ==> text@ == vstd::utf8::decode_utf8(bytes@),
{
    String::from_utf8_lossy(bytes).to_string()
}

/// The characters of `s`, in order.
pub fn chars_of(s: &str) -> (v: Vec<char>)
    ensures
        v@ == s@,
{
    let mut v: Vec<char> = Vec::new();
    for c in it: s.chars()
        invariant
            it.seq() == s@,
            v@ == it.seq().take(it.index()),
    {
        v.push(c);
    }
    assert(v@ == s@);
    v
}

/// The string made of the characters `v[lo..hi]`.
pub fn string_of_range(v: &Vec<char>, lo: usize, hi: usize) -> (s: String)
    requires
        lo <= hi <= v.len(),
    ensures
        s@ == v@.subrange(lo as int, hi as int),
{
    let mut s = String::new();
    let mut i: usize = lo;
    while i < hi
        invariant
            lo <= i <= hi <= v.len(),
            s@ == v@.subrange(lo as int, i as int),
        decreases hi - i,
    {
        push_char(&mut s, v[i]);
        assert(v@.subrange(lo as int, i as int + 1) =~= v@.subrange(lo as int, i as int).push(
            v@[i as int],
        ));
        i += 1;
    }
    s
}

/// The string made of the characters of `v`.
pub fn string_of(v: &Vec<char>) -> (s: String)
    ensures
        s@ == v@,
{
    let s = string_of_range(v, 0, v.len());
    assert(v@.subrange(0, v.len() as int) =~= v@);
    s
}

/// Appends the characters `v[lo..hi]` to `out`, with every `from` among them
/// replaced by `to`.
pub fn push_replaced(out: &mut String, v: &Vec<char>, lo: usize, hi: usize, from: char, to: char)
    requires
        lo <= hi <= v.len(),
    ensures
        final(out)@ == old(out)@ + replace_char(v@.subrange(lo as int, hi as int), from, to),
{
    let mut i: usize = lo;
    assert(old(out)@ + replace_char(v@.subrange(lo as int, lo as int), from, to) =~= old(out)@);
    while i < hi
        invariant
            lo <= i <= hi <= v.len(),
            out@ == old(out)@ + replace_char(v@.subrange(lo as int, i as int), from, to),
        decreases hi - i,
    {
        let c: char = v[i];
        if c == from {
            push_char(out, to);
        } else {
            push_char(out, c);
        }
        assert(out@ =~= old(out)@ + replace_char(v@.subrange(lo as int, i as int + 1), from, to));
        i += 1;
    }
}

/// The ASCII lower-case form of `c`.
pub fn to_ascii_lower(c: char) -> (r: char)
    ensures
        r == ascii_lower(c),
{
    let n: u32 = c as u32;
    if 0x41 <= n && n <= 0x5A {
        ((n + 32) as u8) as char
    } else {
        c
    }
}

/// `a` followed by `b`.
pub fn join_two(a: &str, b: &str) -> (s: String)
    ensures
        s@ == a@ + b@,
{
    String::from_str(a).concat(b)
}

/// `a`, `b` and `c` in a row.
pub fn join_three(a: &str, b: &str, c: &str) -> (s: String)
    ensures
        s@ == a@ + b@ + c@,
{
    String::from_str(a).concat(b).concat(c)
}

/// Whether two string slices hold the same characters.
pub fn str_eq(a: &str, b: &str) -> (same: bool)
    ensures
        same == (a@ == b@),
{
    String::from_str(a) == String::from_str(b)
}

/// Decides whether `c` is Unicode white space.
pub fn is_whitespace(c: char) -> (r: bool)
    ensures
        r == is_space(c),
{
    let n: u32 = c as u32;
    (0x09 <= n && n <= 0x0D) || n == 0x20 || n == 0x85 || n == 0xA0 || n == 0x1680 || (0x2000 <= n
        && n <= 0x200A) || n == 0x2028 || n == 0x2029 || n == 0x202F || n == 0x205F || n == 0x3000
}

/// The index of the first character of `v` that is not white space, or the
/// length of `v` where there is none.
pub fn skip_spaces(v: &Vec<char>) -> (k: usize)
    ensures
        k <= v.len(),
        forall|i: int| 0 <= i < k ==> is_space(#[trigger] v@[i]),
        k < v.len() ==> !is_space(v@[k as int]),
        trim_start(v@) == v@.subrange(k as int, v.len() as int),
{
    let mut k: usize = 0;
    while k < v.len() && is_whitespace(v[k])
        invariant
            k <= v.len(),
            forall|i: int| 0 <= i < k ==> is_space(#[trigger] v@[i]),
        decreases v.len() - k,
    {
        k += 1;
    }
    proof {
        lemma_trim_start_is_suffix(v@, k as int);
    }
    k
}

/// The end of the part of `v[lo..]` that is left when trailing white space
/// is dropped.
pub fn skip_spaces_back(v: &Vec<char>, lo: usize) -> (k: usize)
    requires
        lo <= v.len(),
    ensures
        lo <= k <= v.len(),
        trim_end(v@.subrange(lo as int, v.len() as int)) == v@.subrange(lo as int, k as int),
{
    let mut k: usize = v.len();
    while k > lo && is_whitespace(v[k - 1])
        invariant
            lo <= k <= v.len(),
            forall|i: int| k <= i < v.len() ==> is_space(#[trigger] v@[i]),
        decreases k,
    {
        k -= 1;
    }
    proof {
        let t = v@.subrange(lo as int, v.len() as int);
        assert forall|i: int| k - lo <= i < t.len() implies is_space(#[trigger] t[i]) by {
            assert(t[i] == v@[i + lo]);
        }
        lemma_trim_end_is_prefix(t, k - lo);
        assert(t.subrange(0, k - lo) =~= v@.subrange(lo as int, k as int));
    }
    k
}

/// `s` without leading and trailing white space.
pub fn trimmed(s: &str) -> (t: String)
    ensures
        t@ == trim(s@),
{
    let v = chars_of(s);
    let lo = skip_spaces(&v);
    let hi = skip_spaces_back(&v, lo);
    string_of_range(&v, lo, hi)
}

/// Whether `s` holds nothing but white space.
pub fn blank(s: &str) -> (r: bool)
    ensures
        r == is_blank(s@),
        r == (trim(s@).len() == 0),
{
    let v = chars_of(s);
    let k = skip_spaces(&v);
    proof {
        lemma_trim_empty_iff_blank(s@);
    }
    k == v.len()
}

/// Whether `v` begins with the characters of `p`.
pub fn has_prefix(v: &Vec<char>, p: &Vec<char>) -> (r: bool)
    ensures
        r == p@.is_prefix_of(v@),
{
    if p.len() > v.len() {
        return false;
    }
    let mut i: usize = 0;
    while i < p.len()
        invariant
            i <= p.len() <= v.len(),
            forall|j: int| 0 <= j < i ==> p@[j] == v@[j],
        decreases p.len() - i,
    {
        if p[i] != v[i] {
            assert(!p@.is_prefix_of(v@)) by {
                if p@.is_prefix_of(v@) {
                    assert(v@.subrange(0, p@.len() as int)[i as int] == p@[i as int]);
                }
            }
            return false;
        }
        i += 1;
    }
    assert(p@ =~= v@.subrange(0, p@.len() as int));
    true
}

/// Whether `s` begins with `p`.
pub fn starts_with(s: &str, p: &str) -> (r: bool)
    ensures
        r == p@.is_prefix_of(s@),
{
    let v = chars_of(s);
    let q = chars_of(p);
    has_prefix(&v, &q)
}

/// Appends the decimal numeral of `n` to `out`.
pub fn push_decimal(out: &mut String, n: u64)
    ensures
        final(out)@ == old(out)@ + decimal(n as nat),
    decreases n,
{
    if n >= 10 {
        push_decimal(out, n / 10);
    }
    let d: u8 = (n % 10) as u8;
    let c: char = (0x30u8 + d) as char;
    push_char(out, c);
    proof {
        if n < 10 {
            assert(old(out)@.push(c) =~= old(out)@ + decimal(n as nat));
        } else {
            assert((old(out)@ + decimal((n / 10) as nat)).push(c) =~= old(out)@ + decimal(
                n as nat,
            ));
        }
    }
}

/// The decimal numeral of `n`.
pub fn decimal_string(n: u64) -> (s: String)
    ensures
        s@ == decimal(n as nat),
{
    let mut s = String::new();
    push_decimal(&mut s, n);
    assert(Seq::<char>::empty() + decimal(n as nat) =~= decimal(n as nat));
    s
}

/// A copy of a list of strings.
pub fn clone_strings(items: &Vec<String>) -> (copy: Vec<String>)
    ensures
        views(copy@) == views(items@),
{
    let mut copy: Vec<String> = Vec::new();
    let mut i: usize = 0;
    while i < items.len()
        invariant
            i <= items.len(),
            copy.len() == i,
            forall|j: int| 0 <= j < i ==> copy@[j]@ == items@[j]@,
        decreases items.len() - i,
    {
        copy.push(items[i].clone());
        i += 1;
    }
    assert(views(copy@) =~= views(items@));
    copy
}

/// The order of strings: character by character, by code point; a proper
/// prefix comes first.
pub open spec fn lex_le(a: Seq<char>, b: Seq<char>) -> bool
    decreases a.len(),
{
    if a.len() == 0 {
        true
    } else if b.len() == 0 {
        false
    } else if a[0] != b[0] {
        (a[0] as u32) < (b[0] as u32)
    } else {
        lex_le(a.drop_first(), b.drop_first())
    }
}

/// Whether a list of strings is in ascending order.
pub open spec fn ascending(items: Seq<Seq<char>>) -> bool {
    forall|i: int, j: int| 0 <= i < j < items.len() ==> lex_le(#[trigger] items[i], #[trigger] items[j])
}

/// Characters with the same code point are the same character.
pub proof fn lemma_code_point_identifies(c: char, d: char)
    ensures
        c as u32 == d as u32 ==> c == d,
{
}

/// Of two strings one comes before the other, or they are equal.
pub proof fn lemma_lex_total(a: Seq<char>, b: Seq<char>)
    ensures
        lex_le(a, b) || lex_le(b, a),
    decreases a.len(),
{
    if a.len() > 0 && b.len() > 0 {
        if a[0] == b[0] {
            lemma_lex_total(a.drop_first(), b.drop_first());
        } else {
            lemma_code_point_identifies(a[0], b[0]);
            assert(lex_le(a, b) == ((a[0] as u32) < (b[0] as u32)));
            assert(lex_le(b, a) == ((b[0] as u32) < (a[0] as u32)));
        }
    } else if a.len() > 0 {
        assert(lex_le(b, a));
    } else {
        assert(lex_le(a, b));
    }
}

/// The order of strings is transitive.
pub proof fn lemma_lex_transitive(a: Seq<char>, b: Seq<char>, c: Seq<char>)
    requires
        lex_le(a, b),
        lex_le(b, c),
    ensures
        lex_le(a, c),
    decreases a.len(),
{
    if a.len() > 0 {
        assert(b.len() > 0);
        assert(c.len() > 0);
        if a[0] == b[0] && b[0] == c[0] {
            lemma_lex_transitive(a.drop_first(), b.drop_first(), c.drop_first());
        }
    }
}

/// Decides the order of two strings given by their characters.
pub fn chars_le(a: &Vec<char>, b: &Vec<char>) -> (r: bool)
    ensures
        r == lex_le(a@, b@),
{
    let mut i: usize = 0;
    assert(a@.skip(0) =~= a@ && b@.skip(0) =~= b@);
    while i < a.len() && i < b.len()
        invariant
            i <= a.len(),
            i <= b.len(),
            lex_le(a@, b@) == lex_le(a@.skip(i as int), b@.skip(i as int)),
        decreases a.len() - i,
    {
        let x: u32 = a[i] as u32;
        let y: u32 = b[i] as u32;
        proof {
            let sa = a@.skip(i as int);
            let sb = b@.skip(i as int);
            assert(sa[0] == a@[i as int] && sb[0] == b@[i as int]);
            assert(sa.drop_first() =~= a@.skip(i as int + 1));
            assert(sb.drop_first() =~= b@.skip(i as int + 1));
            lemma_code_point_identifies(sa[0], sb[0]);
            if sa[0] == sb[0] {
                assert(lex_le(sa, sb) == lex_le(sa.drop_first(), sb.drop_first()));
            } else {
                assert(lex_le(sa, sb) == ((sa[0] as u32) < (sb[0] as u32)));
            }
        }
        if x != y {
            return x < y;
        }
        i += 1;
    }
    proof {
        assert(a@.skip(i as int).len() == a.len() - i);
        assert(b@.skip(i as int).len() == b.len() - i);
    }
    i == a.len()
}

/// Decides the order of two strings.
pub fn str_le(a: &str, b: &str) -> (r: bool)
    ensures
        r == lex_le(a@, b@),
{
    let x = chars_of(a);
    let y = chars_of(b);
    chars_le(&x, &y)
}

/// Sorts strings into ascending order. The result holds the same strings,
/// each as often as the input does.
pub fn sort_strings(items: Vec<String>) -> (sorted: Vec<String>)
    ensures
        ascending(views(sorted@)),
        views(sorted@).to_multiset() == views(items@).to_multiset(),
{
    let mut items = items;
    let ghost all = views(items@);
    let mut sorted: Vec<String> = Vec::new();
    assert(views(sorted@) =~= Seq::<Seq<char>>::empty());
    proof {
        broadcast use vstd::multiset::group_multiset_axioms;
        broadcast use vstd::seq_lib::group_to_multiset_ensures;

        assert(views(sorted@).to_multiset().add(views(items@).to_multiset()) =~= all.to_multiset());
    }
    while items.len() > 0
        invariant
            ascending(views(sorted@)),
            views(sorted@).to_multiset().add(views(items@).to_multiset()) == all.to_multiset(),
        decreases items.len(),
    {
        let ghost rest_before = views(items@);
        let ghost done_before = views(sorted@);
        let item = items.pop().unwrap();
        let mut at: usize = 0;
        while at < sorted.len() && str_le(sorted[at].as_str(), item.as_str())
            invariant
                at <= sorted.len(),
                done_before == views(sorted@),
                forall|k: int| 0 <= k < at ==> lex_le(#[trigger] done_before[k], item@),
            decreases sorted.len() - at,
        {
            assert(done_before[at as int] == sorted@[at as int]@);
            at += 1;
        }
        proof {
            if at < sorted.len() {
                assert(done_before[at as int] == sorted@[at as int]@);
                lemma_lex_total(done_before[at as int], item@);
            }
            assert forall|k: int| at <= k < done_before.len() implies lex_le(
                item@,
                #[trigger] done_before[k],
            ) by {
                if k > at {
                    lemma_lex_transitive(item@, done_before[at as int], done_before[k]);
                }
            }
        }
        sorted.insert(at, item);
        proof {
            broadcast use vstd::multiset::group_multiset_axioms;
            broadcast use vstd::seq_lib::group_to_multiset_ensures;

            let done_after = views(sorted@);
            assert(done_after =~= done_before.insert(at as int, item@));
            assert(rest_before =~= views(items@).push(item@));
            assert forall|i: int, j: int| 0 <= i < j < done_after.len() implies lex_le(
                #[trigger] done_after[i],
                #[trigger] done_after[j],
            ) by {
                if i < at && j > at {
                    assert(done_after[i] == done_before[i]);
                    assert(done_after[j] == done_before[j - 1]);
                } else if i < at && j < at {
                    assert(done_after[i] == done_before[i]);
                    assert(done_after[j] == done_before[j]);
                } else if i > at {
                    assert(done_after[i] == done_before[i - 1]);
                    assert(done_after[j] == done_before[j - 1]);
                } else if i == at {
                    assert(done_after[j] == done_before[j - 1]);
                } else {
                    assert(done_after[i] == done_before[i]);
                }
            }
            assert(done_after.to_multiset() =~= done_before.to_multiset().insert(item@));
            assert(rest_before.to_multiset() =~= views(items@).to_multiset().insert(item@));
            assert(done_after.to_multiset().add(views(items@).to_multiset())
                =~= done_before.to_multiset().add(rest_before.to_multiset()));
        }
    }
    proof {
        broadcast use vstd::multiset::group_multiset_axioms;
        broadcast use vstd::seq_lib::group_to_multiset_ensures;

        assert(views(items@) =~= Seq::<Seq<char>>::empty());
        assert(views(sorted@).to_multiset().add(views(items@).to_multiset()) =~= views(
            sorted@,
        ).to_multiset());
    }
    sorted
}

/// `s` without every leading repetition of `p`.
pub open spec fn strip_leading(s: Seq<char>, p: Seq<char>) -> Seq<char>
    decreases s.len(),
{
    if p.len() > 0 && p.is_prefix_of(s) {
        strip_leading(s.skip(p.len() as int), p)
    } else {
        s
    }
}

/// `s` without every trailing repetition of the character `c`.
pub open spec fn strip_trailing_char(s: Seq<char>, c: char) -> Seq<char>
    decreases s.len(),
{
    if s.len() > 0 && s.last() == c {
        strip_trailing_char(s.drop_last(), c)
    } else {
        s
    }
}

/// The index in `v[from..]` where the leading repetitions of `p` end.
pub fn skip_repeats(v: &Vec<char>, from: usize, p: &Vec<char>) -> (k: usize)
    requires
        from <= v.len(),
    ensures
        from <= k <= v.len(),
        strip_leading(v@.skip(from as int), p@) == v@.skip(k as int),
{
    let mut k: usize = from;
    if p.len() == 0 {
        return k;
    }
    loop
        invariant
            from <= k <= v.len(),
            p.len() > 0,
            strip_leading(v@.skip(from as int), p@) == strip_leading(v@.skip(k as int), p@),
        decreases v.len() - k,
    {
        if p.len() > v.len() - k {
            proof {
                let rest = v@.skip(k as int);
                assert(!p@.is_prefix_of(rest));
            }
            return k;
        }
        let mut same: bool = true;
        let mut i: usize = 0;
        while i < p.len() && same
            invariant
                i <= p.len(),
                k + p.len() <= v.len(),
                same ==> forall|j: int| 0 <= j < i ==> p@[j] == v@[k + j],
                !same ==> exists|j: int| 0 <= j < p.len() && p@[j] != v@[k + j],
            decreases p.len() - i + if same { 1int } else { 0int },
        {
            if p[i] != v[k + i] {
                same = false;
            } else {
                i += 1;
            }
        }
        proof {
            let rest = v@.skip(k as int);
            if same {
                assert(p@ =~= rest.subrange(0, p@.len() as int));
                assert(rest.skip(p@.len() as int) =~= v@.skip(k + p@.len()));
            } else {
                let j = choose|j: int| 0 <= j < p.len() && p@[j] != v@[k + j];
                if p@.is_prefix_of(rest) {
                    assert(rest.subrange(0, p@.len() as int)[j] == p@[j]);
                }
                assert(!p@.is_prefix_of(rest));
            }
        }
        if !same {
            return k;
        }
        k = k + p.len();
    }
}

/// The end of the part of `v` that is left when trailing repetitions of `c`
/// are dropped.
pub fn skip_char_back(v: &Vec<char>, c: char) -> (k: usize)
    ensures
        k <= v.len(),
        strip_trailing_char(v@, c) == v@.take(k as int),
{
    let mut k: usize = v.len();
    assert(v@.take(k as int) =~= v@);
    while k > 0 && v[k - 1] == c
        invariant
            k <= v.len(),
            strip_trailing_char(v@, c) == strip_trailing_char(v@.take(k as int), c),
        decreases k,
    {
        assert(v@.take(k as int).drop_last() =~= v@.take(k as int - 1));
        k -= 1;
    }
    k
}

/// The index of the first `c` in `s` at or after `from`, or the length of
/// `s` where there is none.
pub open spec fn index_of(s: Seq<char>, c: char, from: int) -> int
    decreases s.len() - from,
{
    if from < 0 || from >= s.len() {
        s.len() as int
    } else if s[from] == c {
        from
    } else {
        index_of(s, c, from + 1)
    }
}

/// `index_of` stays within the text and finds the first occurrence.
pub proof fn lemma_index_of(s: Seq<char>, c: char, from: int)
    requires
        0 <= from <= s.len(),
    ensures
        from <= index_of(s, c, from) <= s.len(),
        index_of(s, c, from) < s.len() ==> s[index_of(s, c, from)] == c,
        forall|j: int| from <= j < index_of(s, c, from) ==> s[j] != c,
    decreases s.len() - from,
{
    if from < s.len() && s[from] != c {
        lemma_index_of(s, c, from + 1);
    }
}

/// The index of the first `c` in `v` at or after `from`.
pub fn find_char(v: &Vec<char>, c: char, from: usize) -> (k: usize)
    requires
        from <= v.len(),
    ensures
        k == index_of(v@, c, from as int),
        from <= k <= v.len(),
{
    let mut k: usize = from;
    while k < v.len() && v[k] != c
        invariant
            from <= k <= v.len(),
            index_of(v@, c, from as int) == index_of(v@, c, k as int),
        decreases v.len() - k,
    {
        k += 1;
    }
    k
}

/// The pieces of `s` between occurrences of `sep`, from position `from` on.
/// A text of `n` separators has `n + 1` pieces; pieces may be empty.
pub open spec fn split_from(s: Seq<char>, sep: char, from: int) -> Seq<Seq<char>>
    decreases s.len() - from,
{
    if from < 0 || from > s.len() {
        Seq::empty()
    } else {
        let k = index_of(s, sep, from);
        if k >= s.len() {
            seq![s.subrange(from, s.len() as int)]
        } else {
            proof {
                lemma_index_of(s, sep, from);
            }
            seq![s.subrange(from, k)] + split_from(s, sep, k + 1)
        }
    }
}

/// The pieces of `s` between occurrences of `sep`.
pub open spec fn split(s: Seq<char>, sep: char) -> Seq<Seq<char>> {
    split_from(s, sep, 0)
}

/// A line without the line feed that ends it, and without the carriage
/// return before that line feed.
pub open spec fn strip_line_end(piece: Seq<char>) -> Seq<char> {
    if piece.len() > 0 && piece.last() == '\n' {
        let line = piece.drop_last();
        if line.len() > 0 && line.last() == '\r' {
            line.drop_last()
        } else {
            line
        }
    } else {
        piece
    }
}

/// The lines of `s` from position `from` on. Each line ends with a line
/// feed, but for the last, which may end with the text; nothing follows a
/// final line feed.
pub open spec fn lines_from(s: Seq<char>, from: int) -> Seq<Seq<char>>
    decreases s.len() - from,
{
    if from < 0 || from >= s.len() {
        Seq::empty()
    } else {
        let k = index_of(s, '\n', from);
        if k >= s.len() {
            seq![s.subrange(from, s.len() as int)]
        } else {
            proof {
                lemma_index_of(s, '\n', from);
            }
            seq![strip_line_end(s.subrange(from, k + 1))] + lines_from(s, k + 1)
        }
    }
}

/// The lines of `s`.
pub open spec fn lines(s: Seq<char>) -> Seq<Seq<char>> {
    lines_from(s, 0)
}

/// Splits a text into its lines.
pub fn lines_of(text: &str) -> (out: Vec<String>)
    ensures
        views(out@) == lines(text@),
{
    let v = chars_of(text);
    let mut out: Vec<String> = Vec::new();
    let mut from: usize = 0;
    assert(views(out@) + lines_from(v@, 0) =~= lines(text@));
    while from < v.len()
        invariant
            from <= v.len(),
            v@ == text@,
            views(out@) + lines_from(v@, from as int) == lines(text@),
        decreases v.len() - from,
    {
        let k = find_char(&v, '\n', from);
        let ghost before = views(out@);
        if k >= v.len() {
            out.push(string_of_range(&v, from, v.len()));
            proof {
                assert(lines_from(v@, v.len() as int) =~= Seq::<Seq<char>>::empty());
                assert(views(out@) =~= before + lines_from(v@, from as int));
                assert(views(out@) + lines_from(v@, v.len() as int) =~= views(out@));
            }
            from = v.len();
        } else {
            proof {
                lemma_index_of(v@, '\n', from as int);
            }
            let end: usize = if k > from && v[k - 1] == '\r' {
                k - 1
            } else {
                k
            };
            out.push(string_of_range(&v, from, end));
            proof {
                let piece = v@.subrange(from as int, k + 1);
                assert(piece.last() == '\n');
                assert(piece.drop_last() =~= v@.subrange(from as int, k as int));
                if k > from {
                    assert(piece.drop_last().last() == v@[k - 1]);
                    assert(piece.drop_last().drop_last() =~= v@.subrange(from as int, k - 1));
                }
                assert(v@.subrange(from as int, end as int) =~= strip_line_end(piece));
                assert(views(out@) =~= before + seq![strip_line_end(piece)]);
                assert(views(out@) + lines_from(v@, k + 1) =~= before + lines_from(
                    v@,
                    from as int,
                ));
            }
            from = k + 1;
        }
    }
    proof {
        assert(lines_from(v@, from as int) =~= Seq::<Seq<char>>::empty());
        assert(views(out@) + Seq::<Seq<char>>::empty() =~= views(out@));
    }
    out
}

/// Splits the characters of a text at each `sep`.
pub fn split_chars(v: &Vec<char>, sep: char) -> (out: Vec<String>)
    ensures
        views(out@) == split(v@, sep),
        out@.len() >= 1,
{
    let mut out: Vec<String> = Vec::new();
    let mut from: usize = 0;
    assert(views(out@) + split_from(v@, sep, 0) =~= split(v@, sep));
    loop
        invariant
            from <= v.len(),
            views(out@) + split_from(v@, sep, from as int) == split(v@, sep),
        decreases v.len() - from,
    {
        let k = find_char(v, sep, from);
        let ghost before = views(out@);
        out.push(string_of_range(v, from, k));
        if k >= v.len() {
            proof {
                assert(views(out@) =~= before + split_from(v@, sep, from as int));
            }
            return out;
        }
        proof {
            assert(views(out@) =~= before + seq![v@.subrange(from as int, k as int)]);
            assert(views(out@) + split_from(v@, sep, k + 1) =~= before + split_from(
                v@,
                sep,
                from as int,
            ));
        }
        from = k + 1;
    }
}

} // verus!
