//! Character-level text rules shared by the request validators.
use vstd::prelude::*;
use vstd::utf8::encode_utf8;

verus! {

broadcast use vstd::string::group_string_axioms;

/// A character with the Unicode `White_Space` property, the set that
/// `char::is_whitespace` (and so `str::trim`) removes.
pub open spec fn is_whitespace(c: char) -> bool {
    let u = c as u32;
    ||| 0x09 <= u <= 0x0D
    ||| u == 0x20
    ||| u == 0x85
    ||| u == 0xA0
    ||| u == 0x1680
    ||| 0x2000 <= u <= 0x200A
    ||| u == 0x2028
    ||| u == 0x2029
    ||| u == 0x202F
    ||| u == 0x205F
    ||| u == 0x3000
}

/// `s` without its leading whitespace.
pub open spec fn trim_start(s: Seq<char>) -> Seq<char>
    decreases s.len(),
{
    if s.len() > 0 && is_whitespace(s[0]) {
        trim_start(s.drop_first())
    } else {
        s
    }
}

/// `s` without its trailing whitespace.
pub open spec fn trim_end(s: Seq<char>) -> Seq<char>
    decreases s.len(),
{
    if s.len() > 0 && is_whitespace(s.last()) {
        trim_end(s.drop_last())
    } else {
        s
    }
}

/// `s` without leading and trailing whitespace.
pub open spec fn trim(s: Seq<char>) -> Seq<char> {
    trim_end(trim_start(s))
}

/// Length in bytes of the UTF-8 encoding of `s`, what `str::len` reports.
pub open spec fn utf8_len(s: Seq<char>) -> nat {
    encode_utf8(s).len()
}

/// `needle` occurs in `s` as a contiguous run of characters.
pub open spec fn contains_run(s: Seq<char>, needle: Seq<char>) -> bool {
    exists|i: int| 0 <= i && i + needle.len() <= s.len() && #[trigger] s.subrange(i, i + needle.len()) == needle
}

/// Whether `c` is a whitespace character.
pub fn is_whitespace_char(c: char) -> (r: bool)
    ensures
        r == is_whitespace(c),
{
    let u = c as u32;
    (0x09 <= u && u <= 0x0D) || u == 0x20 || u == 0x85 || u == 0xA0 || u == 0x1680 || (0x2000 <= u
        && u <= 0x200A) || u == 0x2028 || u == 0x2029 || u == 0x202F || u == 0x205F || u == 0x3000
}

/// The characters of `s`, in order.
pub fn str_chars(s: &str) -> (r: Vec<char>)
    ensures
        r@ == s@,
{
    let mut v: Vec<char> = Vec::new();
    for c in it: s.chars()
        invariant
            it.seq() == s@,
            v@ == it.seq().take(it.index() as int),
    {
        v.push(c);
    }
    v
}


/// When exactly the first `a` characters of `s` are whitespace, stripping
/// leading whitespace drops exactly those.
proof fn lemma_trim_start_at(s: Seq<char>, a: int)
    requires
        0 <= a <= s.len(),
        forall|i: int| 0 <= i < a ==> is_whitespace(#[trigger] s[i]),
        a == s.len() || !is_whitespace(s[a]),
    ensures
        trim_start(s) == s.subrange(a, s.len() as int),
    decreases a,
{
    if a == 0 {
        assert(s.subrange(0, s.len() as int) =~= s);
    } else {
        let t = s.drop_first();
        assert forall|i: int| 0 <= i < a - 1 implies is_whitespace(#[trigger] t[i]) by {
            assert(t[i] == s[i + 1]);
        }
        lemma_trim_start_at(t, a - 1);
        assert(t.subrange(a - 1, t.len() as int) =~= s.subrange(a, s.len() as int));
    }
}

/// When exactly the characters of `s` from `b` on are whitespace, stripping
/// trailing whitespace keeps the first `b`.
proof fn lemma_trim_end_at(s: Seq<char>, b: int)
    requires
        0 <= b <= s.len(),
        forall|i: int| b <= i < s.len() ==> is_whitespace(#[trigger] s[i]),
        b == 0 || !is_whitespace(s[b - 1]),
    ensures
        trim_end(s) == s.subrange(0, b),
    decreases s.len() - b,
{
    if b == s.len() {
        assert(s.subrange(0, b) =~= s);
    } else {
        let t = s.drop_last();
        assert forall|i: int| b <= i < t.len() implies is_whitespace(#[trigger] t[i]) by {
            assert(t[i] == s[i]);
        }
        lemma_trim_end_at(t, b);
        assert(t.subrange(0, b) =~= s.subrange(0, b));
    }
}

/// Bounds `(a, b)` with `chars@.subrange(a, b) == trim(chars@)`.
fn trim_bounds(chars: &Vec<char>) -> (r: (usize, usize))
    ensures
        r.0 <= r.1 <= chars@.len(),
        chars@.subrange(r.0 as int, r.1 as int) == trim(chars@),
{
    let n = chars.len();
    let mut a: usize = 0;
    while a < n && is_whitespace_char(chars[a])
        invariant
            n == chars@.len(),
            a <= n,
            forall|i: int| 0 <= i < a ==> is_whitespace(#[trigger] chars@[i]),
        decreases n - a,
    {
        a = a + 1;
    }
    let mut b: usize = n;
    while b > a && is_whitespace_char(chars[b - 1])
        invariant
            n == chars@.len(),
            a <= b <= n,
            forall|i: int| b <= i < n ==> is_whitespace(#[trigger] chars@[i]),
        decreases b,
    {
        b = b - 1;
    }
    proof {
        let s = chars@;
        lemma_trim_start_at(s, a as int);
        let t = s.subrange(a as int, n as int);
        assert forall|i: int| (b - a) <= i < t.len() implies is_whitespace(#[trigger] t[i]) by {
            assert(t[i] == s[i + a]);
        }
        if b > a {
            assert(t[b - a - 1] == s[b - 1]);
        }
        lemma_trim_end_at(t, b - a);
        assert(t.subrange(0, b - a) =~= s.subrange(a as int, b as int));
    }
    (a, b)
}

/// `s` with leading and trailing whitespace removed, as `str::trim` does.
pub fn trim_str(s: &str) -> (r: &str)
    ensures
        r@ == trim(s@),
{
    let chars = str_chars(s);
    let (a, b) = trim_bounds(&chars);
    s.substring_char(a, b)
}

/// Whether `c` occurs in `v`.
pub fn contains_char(v: &Vec<char>, c: char) -> (r: bool)
    ensures
        r == v@.contains(c),
{
    let mut i: usize = 0;
    while i < v.len()
        invariant
            i <= v@.len(),
            forall|j: int| 0 <= j < i ==> v@[j] != c,
        decreases v@.len() - i,
    {
        if v[i] == c {
            return true;
        }
        i = i + 1;
    }
    false
}

/// Whether the characters of `needle` occur contiguously in `v`.
pub fn contains_seq(v: &Vec<char>, needle: &Vec<char>) -> (r: bool)
    ensures
        r == contains_run(v@, needle@),
{
    let n = v.len();
    let m = needle.len();
    if m > n {
        return false;
    }
    let mut i: usize = 0;
    while i <= n - m
        invariant
            n == v@.len(),
            m == needle@.len(),
            m <= n,
            i <= n - m + 1,
            forall|k: int| 0 <= k < i ==> #[trigger] v@.subrange(k, k + m) != needle@,
        decreases n - i,
    {
        let mut j: usize = 0;
        let mut same = true;
        while j < m
            invariant
                n == v@.len(),
                m == needle@.len(),
                i + m <= n,
                j <= m,
                same == (forall|l: int| 0 <= l < j ==> v@[i + l] == needle@[l]),
            decreases m - j,
        {
            if v[i + j] != needle[j] {
                same = false;
            }
            j = j + 1;
        }
        if same {
            assert(v@.subrange(i as int, i + m) =~= needle@);
            return true;
        }
        proof {
            assert(exists|l: int| 0 <= l < m && v@[i + l] != needle@[l]);
            let l = choose|l: int| 0 <= l < m && v@[i + l] != needle@[l];
            assert(v@.subrange(i as int, i + m)[l] == v@[i + l]);
        }
        i = i + 1;
    }
    proof {
        assert forall|k: int| 0 <= k && k + m <= n implies #[trigger] v@.subrange(k, k + m) != needle@ by {
            assert(k < i);
        }
    }
    false
}


/// After stripping leading whitespace, the text starts with none.
proof fn lemma_trim_start_clean(s: Seq<char>)
    ensures
        trim_start(s).len() == 0 || !is_whitespace(trim_start(s)[0]),
        trim_start(s).len() <= s.len(),
    decreases s.len(),
{
    if s.len() > 0 && is_whitespace(s[0]) {
        lemma_trim_start_clean(s.drop_first());
    }
}

/// Stripping trailing whitespace keeps a prefix, so text that starts with
/// no whitespace still starts with none, and it ends with none.
proof fn lemma_trim_end_prefix(s: Seq<char>)
    ensures
        trim_end(s).len() <= s.len(),
        trim_end(s) == s.subrange(0, trim_end(s).len() as int),
        trim_end(s).len() == 0 || !is_whitespace(trim_end(s).last()),
    decreases s.len(),
{
    if s.len() > 0 && is_whitespace(s.last()) {
        lemma_trim_end_prefix(s.drop_last());
        let t = trim_end(s.drop_last());
        assert(s.drop_last().subrange(0, t.len() as int) =~= s.subrange(0, t.len() as int));
    } else {
        assert(s.subrange(0, s.len() as int) =~= s);
    }
}

/// Trimming trimmed text changes nothing.
pub proof fn law_trim_idempotent(s: Seq<char>)
    ensures
        trim(trim(s)) == trim(s),
{
    let a = trim_start(s);
    let t = trim_end(a);
    lemma_trim_start_clean(s);
    lemma_trim_end_prefix(a);
    if t.len() > 0 {
        assert(t[0] == a[0]);
    }
    assert(trim_start(t) == t);
    assert(trim_end(t) == t);
}

/// Stripping leading whitespace keeps a suffix and drops only whitespace.
proof fn lemma_trim_start_suffix(s: Seq<char>)
    ensures
        trim_start(s).len() <= s.len(),
        trim_start(s) == s.subrange(s.len() - trim_start(s).len(), s.len() as int),
        forall|i: int| 0 <= i < s.len() - trim_start(s).len() ==> is_whitespace(#[trigger] s[i]),
    decreases s.len(),
{
    if s.len() > 0 && is_whitespace(s[0]) {
        let t = s.drop_first();
        lemma_trim_start_suffix(t);
        assert(t.subrange(t.len() - trim_start(t).len(), t.len() as int) =~= s.subrange(
            s.len() - trim_start(t).len(),
            s.len() as int,
        ));
        assert forall|i: int| 0 <= i < s.len() - trim_start(s).len() implies is_whitespace(
            #[trigger] s[i],
        ) by {
            if i > 0 {
                assert(s[i] == t[i - 1]);
            }
        }
    } else {
        assert(s.subrange(0, s.len() as int) =~= s);
    }
}

/// Trimming keeps one contiguous stretch of the text, drops only whitespace
/// before and after it, and the stretch neither starts nor ends with
/// whitespace.
pub proof fn law_trim_removes_only_outer_whitespace(s: Seq<char>)
    ensures
        exists|a: int, b: int|
            #![trigger s.subrange(a, b)]
            0 <= a <= b <= s.len() && trim(s) == s.subrange(a, b) && (forall|i: int|
                0 <= i < a ==> is_whitespace(#[trigger] s[i])) && (forall|i: int|
                b <= i < s.len() ==> is_whitespace(#[trigger] s[i])),
        trim(s).len() > 0 ==> !is_whitespace(trim(s)[0]) && !is_whitespace(trim(s).last()),
{
    let t = trim_start(s);
    lemma_trim_start_suffix(s);
    lemma_trim_start_clean(s);
    lemma_trim_end_prefix(t);
    let a = s.len() - t.len();
    let r = trim_end(t);
    let b = a + r.len();
    assert(r == t.subrange(0, r.len() as int));
    assert(t.subrange(0, r.len() as int) =~= s.subrange(a, b));
    assert forall|i: int| b <= i < s.len() implies is_whitespace(#[trigger] s[i]) by {
        lemma_trim_end_tail(t);
        assert(s[i] == t[i - a]);
    }
    if r.len() > 0 {
        assert(r[0] == t[0]);
    }
    assert(trim(s) == s.subrange(a, b));
}

/// What stripping trailing whitespace drops is whitespace.
proof fn lemma_trim_end_tail(s: Seq<char>)
    ensures
        forall|i: int| trim_end(s).len() <= i < s.len() ==> is_whitespace(#[trigger] s[i]),
    decreases s.len(),
{
    if s.len() > 0 && is_whitespace(s.last()) {
        let t = s.drop_last();
        lemma_trim_end_tail(t);
        assert forall|i: int| trim_end(s).len() <= i < s.len() implies is_whitespace(
            #[trigger] s[i],
        ) by {
            if i < s.len() - 1 {
                assert(s[i] == t[i]);
            }
        }
    }
}

/// Every character of `p` is whitespace.
pub open spec fn all_whitespace(p: Seq<char>) -> bool {
    forall|i: int| 0 <= i < p.len() ==> is_whitespace(#[trigger] p[i])
}

/// Leading whitespace added in front is stripped with the rest.
proof fn lemma_trim_start_skips_prefix(p: Seq<char>, s: Seq<char>)
    requires
        all_whitespace(p),
    ensures
        trim_start(p + s) == trim_start(s),
    decreases p.len(),
{
    if p.len() > 0 {
        let t = p + s;
        assert(t[0] == p[0]);
        assert(t.drop_first() =~= p.drop_first() + s);
        assert(all_whitespace(p.drop_first())) by {
            assert forall|i: int| 0 <= i < p.drop_first().len() implies is_whitespace(
                #[trigger] p.drop_first()[i],
            ) by {
                assert(p.drop_first()[i] == p[i + 1]);
            }
        }
        lemma_trim_start_skips_prefix(p.drop_first(), s);
    } else {
        assert(p + s =~= s);
    }
}

/// Trailing whitespace added at the end is stripped with the rest.
proof fn lemma_trim_end_skips_suffix(s: Seq<char>, q: Seq<char>)
    requires
        all_whitespace(q),
    ensures
        trim_end(s + q) == trim_end(s),
    decreases q.len(),
{
    if q.len() > 0 {
        let t = s + q;
        assert(t.last() == q.last());
        assert(t.drop_last() =~= s + q.drop_last());
        assert(all_whitespace(q.drop_last())) by {
            assert forall|i: int| 0 <= i < q.drop_last().len() implies is_whitespace(
                #[trigger] q.drop_last()[i],
            ) by {
                assert(q.drop_last()[i] == q[i]);
            }
        }
        lemma_trim_end_skips_suffix(s, q.drop_last());
    } else {
        assert(s + q =~= s);
    }
}

/// Stripping leading whitespace of `s + q` either leaves nothing (when `s`
/// is all whitespace) or leaves what it leaves of `s`, followed by `q`.
proof fn lemma_trim_start_with_suffix(s: Seq<char>, q: Seq<char>)
    requires
        all_whitespace(q),
    ensures
        trim_start(s).len() == 0 ==> trim_start(s + q).len() == 0,
        trim_start(s).len() > 0 ==> trim_start(s + q) == trim_start(s) + q,
    decreases s.len(),
{
    if s.len() == 0 {
        assert(s + q =~= q + Seq::<char>::empty());
        lemma_trim_start_skips_prefix(q, Seq::<char>::empty());
    } else if is_whitespace(s[0]) {
        assert((s + q)[0] == s[0]);
        assert((s + q).drop_first() =~= s.drop_first() + q);
        lemma_trim_start_with_suffix(s.drop_first(), q);
    } else {
        assert((s + q)[0] == s[0]);
    }
}

/// Whitespace padding on either side never changes what trimming keeps.
pub proof fn law_trim_ignores_padding(p: Seq<char>, s: Seq<char>, q: Seq<char>)
    requires
        all_whitespace(p),
        all_whitespace(q),
    ensures
        trim(p + s + q) == trim(s),
{
    assert(p + s + q =~= p + (s + q));
    lemma_trim_start_skips_prefix(p, s + q);
    lemma_trim_start_with_suffix(s, q);
    if trim_start(s).len() > 0 {
        lemma_trim_end_skips_suffix(trim_start(s), q);
    } else {
        assert(trim_start(s + q) =~= trim_start(s));
    }
}

/// Number of bytes in the UTF-8 encoding of `c`.
pub open spec fn char_width(c: char) -> nat {
    let u = c as u32;
    if u <= 0x7F {
        1
    } else if u <= 0x7FF {
        2
    } else if u <= 0xFFFF {
        3
    } else {
        4
    }
}

/// Encoding the characters of `s` from `i` on costs the width of `s[i]`
/// plus the encoding of what follows it.
proof fn lemma_utf8_len_step(s: Seq<char>, i: int)
    requires
        0 <= i < s.len(),
    ensures
        utf8_len(s.subrange(i, s.len() as int)) == char_width(s[i]) + utf8_len(
            s.subrange(i + 1, s.len() as int),
        ),
{
    let t = s.subrange(i, s.len() as int);
    assert(t.drop_first() =~= s.subrange(i + 1, s.len() as int));
    assert(t[0] == s[i]);
    let u = s[i] as u32;
    vstd::utf8::char_is_scalar(s[i]);
    assert(vstd::utf8::encode_scalar(u).len() == char_width(s[i]));
    assert(encode_utf8(t) == vstd::utf8::encode_scalar(u) + encode_utf8(t.drop_first()));
}

/// Encoding a suffix of `s` never takes more bytes than encoding `s`.
proof fn lemma_utf8_len_suffix(s: Seq<char>, i: int)
    requires
        0 <= i <= s.len(),
    ensures
        utf8_len(s.subrange(i, s.len() as int)) <= utf8_len(s),
    decreases i,
{
    if i == 0 {
        assert(s.subrange(0, s.len() as int) =~= s);
    } else {
        lemma_utf8_len_suffix(s, i - 1);
        lemma_utf8_len_step(s, i - 1);
    }
}

/// Whether the UTF-8 encoding of the characters in `v` is longer than `limit` bytes.
pub fn utf8_len_exceeds(v: &Vec<char>, limit: usize) -> (r: bool)
    requires
        limit < usize::MAX - 4,
    ensures
        r == (utf8_len(v@) > limit),
{
    let n = v.len();
    let mut i: usize = n;
    let mut acc: usize = 0;
    assert(v@.subrange(n as int, n as int) =~= Seq::<char>::empty());
    assert(encode_utf8(Seq::<char>::empty()) =~= Seq::<u8>::empty());
    while i > 0
        invariant
            n == v@.len(),
            i <= n,
            limit < usize::MAX - 4,
            acc <= limit,
            acc == utf8_len(v@.subrange(i as int, n as int)),
        decreases i,
    {
        let c = v[i - 1];
        let u = c as u32;
        let w: usize = if u <= 0x7F {
            1
        } else if u <= 0x7FF {
            2
        } else if u <= 0xFFFF {
            3
        } else {
            4
        };
        proof {
            lemma_utf8_len_step(v@, i - 1);
        }
        acc = acc + w;
        i = i - 1;
        if acc > limit {
            proof {
                lemma_utf8_len_suffix(v@, i as int);
            }
            return true;
        }
    }
    assert(v@.subrange(0, n as int) =~= v@);
    false
}

} // verus!
