//! Character-level text helpers shared by the scanner, the parsers and the
//! report writers, each proved against a small specification over `Seq<char>`.
use vstd::prelude::*;
use vstd::string::*;

verus! {

broadcast use vstd::string::group_string_axioms;

// ---------------------------------------------------------------------------
// Character classes
// ---------------------------------------------------------------------------

pub open spec fn is_ascii_digit(c: char) -> bool {
    '0' <= c && c <= '9'
}

pub open spec fn is_ascii_alphanumeric(c: char) -> bool {
    ||| is_ascii_digit(c)
    ||| ('a' <= c && c <= 'z')
    ||| ('A' <= c && c <= 'Z')
}

/// A character that can continue a Rust identifier in the ASCII subset.
pub open spec fn is_ident_char(c: char) -> bool {
    c == '_' || is_ascii_alphanumeric(c)
}

/// The Unicode `White_Space` property, which `char::is_whitespace` tests.
pub open spec fn is_whitespace(c: char) -> bool {
    ||| ('\u{9}' <= c && c <= '\u{d}')
    ||| c == ' '
    ||| c == '\u{85}'
    ||| c == '\u{a0}'
    ||| c == '\u{1680}'
    ||| ('\u{2000}' <= c && c <= '\u{200a}')
    ||| c == '\u{2028}'
    ||| c == '\u{2029}'
    ||| c == '\u{202f}'
    ||| c == '\u{205f}'
    ||| c == '\u{3000}'
}

pub fn ascii_digit(c: char) -> (r: bool)
    ensures
        r == is_ascii_digit(c),
{
    '0' <= c && c <= '9'
}

pub fn ident_char(c: char) -> (r: bool)
    ensures
        r == is_ident_char(c),
{
    c == '_' || ('0' <= c && c <= '9') || ('a' <= c && c <= 'z') || ('A' <= c && c <= 'Z')
}

pub fn whitespace(c: char) -> (r: bool)
    ensures
        r == is_whitespace(c),
{
    ('\u{9}' <= c && c <= '\u{d}') || c == ' ' || c == '\u{85}' || c == '\u{a0}' || c
        == '\u{1680}' || ('\u{2000}' <= c && c <= '\u{200a}') || c == '\u{2028}' || c
        == '\u{2029}' || c == '\u{202f}' || c == '\u{205f}' || c == '\u{3000}'
}

// ---------------------------------------------------------------------------
// Building strings
// ---------------------------------------------------------------------------

/// The characters of `s`, in order.
pub fn chars_of(s: &str) -> (r: Vec<char>)
    ensures
        r@ == s@,
{
    let mut out: Vec<char> = Vec::new();
    for c in it: s.chars()
        invariant
            out@ == it.seq().take(it.index() as int),
            it.seq() == s@,
    {
        out.push(c);
    }
    out
}

/// An owned copy of `s`.
pub fn owned(s: &str) -> (r: String)
    ensures
        r@ == s@,
{
    s.to_owned()
}

/// `String::push`: appends one character.
#[verifier::external_body]
pub(crate) fn push_char(s: &mut String, c: char)
    ensures
        final(s)@ == old(s)@.push(c),
{
    s.push(c);
}

/// Appends every character of `cs` to `s`.
pub fn push_chars(s: &mut String, cs: &Vec<char>)
    ensures
        final(s)@ == old(s)@ + cs@,
{
    let ghost start = s@;
    for i in 0..cs.len()
        invariant
            s@ == start + cs@.take(i as int),
    {
        push_char(s, cs[i]);
        assert(cs@.take(i + 1) == cs@.take(i as int).push(cs@[i as int]));
    }
    assert(cs@.take(cs@.len() as int) == cs@);
}

/// The string made of the characters of `cs`.
pub fn string_of_chars(cs: &Vec<char>) -> (r: String)
    ensures
        r@ == cs@,
{
    let mut s = String::new();
    push_chars(&mut s, cs);
    s
}

pub open spec fn digit_char(d: nat) -> char {
    seq!['0', '1', '2', '3', '4', '5', '6', '7', '8', '9'][d as int]
}

/// The decimal notation of `n`, as `to_string` writes an unsigned integer.
pub open spec fn decimal(n: nat) -> Seq<char>
    decreases n,
{
    if n < 10 {
        seq![digit_char(n)]
    } else {
        decimal(n / 10) + seq![digit_char(n % 10)]
    }
}

fn digit(d: u64) -> (c: char)
    requires
        d < 10,
    ensures
        c == digit_char(d as nat),
{
    if d == 0 {
        '0'
    } else if d == 1 {
        '1'
    } else if d == 2 {
        '2'
    } else if d == 3 {
        '3'
    } else if d == 4 {
        '4'
    } else if d == 5 {
        '5'
    } else if d == 6 {
        '6'
    } else if d == 7 {
        '7'
    } else if d == 8 {
        '8'
    } else {
        '9'
    }
}

/// Appends the decimal notation of `n`.
pub fn push_decimal(s: &mut String, n: u64)
    ensures
        final(s)@ == old(s)@ + decimal(n as nat),
    decreases n,
{
    if n >= 10 {
        push_decimal(s, n / 10);
    }
    let c = digit(n % 10);
    push_char(s, c);
}

/// The decimal notation of `n`.
pub fn usize_to_string(n: usize) -> (r: String)
    ensures
        r@ == decimal(n as nat),
{
    let mut s = String::new();
    push_decimal(&mut s, n as u64);
    s
}

pub open spec fn bool_text(b: bool) -> Seq<char> {
    if b {
        "true"@
    } else {
        "false"@
    }
}

/// `b.to_string()`.
pub fn bool_to_string(b: bool) -> (r: String)
    ensures
        r@ == bool_text(b),
{
    if b {
        owned("true")
    } else {
        owned("false")
    }
}

/// `parts` joined with `sep` between neighbours.
pub open spec fn join(parts: Seq<Seq<char>>, sep: Seq<char>) -> Seq<char>
    decreases parts.len(),
{
    if parts.len() == 0 {
        Seq::empty()
    } else if parts.len() == 1 {
        parts[0]
    } else {
        join(parts.drop_last(), sep) + sep + parts.last()
    }
}

pub open spec fn views(v: Seq<String>) -> Seq<Seq<char>> {
    v.map_values(|s: String| s@)
}

/// `parts.join(sep)`.
pub fn join_strings(parts: &Vec<String>, sep: &str) -> (r: String)
    ensures
        r@ == join(views(parts@), sep@),
{
    let mut out = String::new();
    let ghost all = views(parts@);
    for i in 0..parts.len()
        invariant
            all == views(parts@),
            out@ == join(all.take(i as int), sep@),
    {
        if i != 0 {
            out.append(sep);
        }
        out.append(parts[i].as_str());
        assert(all.take(i + 1).drop_last() == all.take(i as int));
    }
    assert(all.take(parts.len() as int) == all);
    out
}

// ---------------------------------------------------------------------------
// Comparing and searching
// ---------------------------------------------------------------------------

/// `a == b` on string slices.
pub fn str_eq(a: &str, b: &str) -> (r: bool)
    ensures
        r == (a@ == b@),
{
    let x = chars_of(a);
    let y = chars_of(b);
    chars_eq(&x, &y)
}

/// Equality of two character vectors.
pub fn chars_eq(x: &Vec<char>, y: &Vec<char>) -> (r: bool)
    ensures
        r == (x@ == y@),
{
    if x.len() != y.len() {
        return false;
    }
    for i in 0..x.len()
        invariant
            x@.len() == y@.len(),
            forall|j: int| 0 <= j < i ==> x@[j] == y@[j],
    {
        if x[i] != y[i] {
            return false;
        }
    }
    assert(x@ =~= y@);
    true
}

/// Strict lexicographic order on character sequences, the order of `str`'s
/// `Ord` (UTF-8 keeps the order of code points).
pub open spec fn seq_less(a: Seq<char>, b: Seq<char>) -> bool {
    exists|k: int|
        #![trigger a.take(k), b.take(k)]
        0 <= k <= a.len() && k <= b.len() && a.take(k) == b.take(k) && ((k == a.len() && k
            < b.len()) || (k < a.len() && k < b.len() && a[k] < b[k]))
}

/// Lexicographic comparison: `Some(true)` when `a < b`, `Some(false)` when
/// `a > b`, `None` when they are equal.
pub fn chars_order(a: &Vec<char>, b: &Vec<char>) -> (r: Option<bool>)
    ensures
        r == Some(true) <==> seq_less(a@, b@),
        r == Some(false) <==> seq_less(b@, a@),
        r is None <==> a@ == b@,
{
    let n = if a.len() < b.len() {
        a.len()
    } else {
        b.len()
    };
    let mut i: usize = 0;
    while i < n
        invariant
            n <= a.len(),
            n <= b.len(),
            n == a.len() || n == b.len(),
            i <= n,
            a@.take(i as int) == b@.take(i as int),
        decreases n - i,
    {
        if a[i] != b[i] {
            proof {
                lemma_less_at(a@, b@, i as int);
            }
            if a[i] < b[i] {
                return Some(true);
            } else {
                return Some(false);
            }
        }
        assert(a@.take(i + 1) == a@.take(i as int).push(a@[i as int]));
        assert(b@.take(i + 1) == b@.take(i as int).push(b@[i as int]));
        i = i + 1;
    }
    proof {
        lemma_less_prefix(a@, b@, n as int);
    }
    if a.len() < b.len() {
        Some(true)
    } else if b.len() < a.len() {
        Some(false)
    } else {
        assert(a@ == a@.take(n as int));
        assert(b@ == b@.take(n as int));
        None
    }
}

proof fn lemma_less_at(a: Seq<char>, b: Seq<char>, i: int)
    requires
        0 <= i < a.len(),
        i < b.len(),
        a.take(i) == b.take(i),
        a[i] != b[i],
    ensures
        seq_less(a, b) <==> a[i] < b[i],
        seq_less(b, a) <==> b[i] < a[i],
        a != b,
{
    assert forall|k: int|
        0 <= k <= a.len() && k <= b.len() && #[trigger] a.take(k) == #[trigger] b.take(k) implies k
        <= i by {
        if k > i {
            assert(a.take(k)[i] == a[i]);
            assert(b.take(k)[i] == b[i]);
        }
    }
    assert forall|k: int|
        0 <= k <= b.len() && k <= a.len() && #[trigger] b.take(k) == #[trigger] a.take(k) && k
            < i implies k < b.len() && k < a.len() && a[k] == b[k] by {
        assert(a.take(i)[k] == a[k]);
        assert(b.take(i)[k] == b[k]);
    }
    if a[i] < b[i] {
        assert(a.take(i) == b.take(i));
    }
    if b[i] < a[i] {
        assert(b.take(i) == a.take(i));
    }
    assert(a.take(i + 1) != b.take(i + 1) ==> a != b);
    assert(a.take(i + 1)[i] == a[i]);
    assert(b.take(i + 1)[i] == b[i]);
}

proof fn lemma_less_prefix(a: Seq<char>, b: Seq<char>, n: int)
    requires
        n == a.len() || n == b.len(),
        n <= a.len(),
        n <= b.len(),
        a.take(n) == b.take(n),
    ensures
        seq_less(a, b) <==> a.len() < b.len(),
        seq_less(b, a) <==> b.len() < a.len(),
{
    assert forall|k: int|
        0 <= k <= a.len() && k <= b.len() && #[trigger] a.take(k) == #[trigger] b.take(k) && k
            < a.len() && k < b.len() implies a[k] == b[k] by {
        assert(a.take(n)[k] == a[k]);
        assert(b.take(n)[k] == b[k]);
    }
    if a.len() < b.len() {
        assert(a.take(n) == b.take(n));
    }
    if b.len() < a.len() {
        assert(b.take(n) == a.take(n));
    }
}

/// `pat` stands in `text` at index `i`.
pub open spec fn occurs_at(text: Seq<char>, pat: Seq<char>, i: int) -> bool {
    0 <= i && i + pat.len() <= text.len() && text.subrange(i, i + pat.len()) == pat
}

/// `text.contains(pat)`.
pub open spec fn seq_contains(text: Seq<char>, pat: Seq<char>) -> bool {
    exists|i: int| #[trigger] occurs_at(text, pat, i)
}

/// The first index at or after `from` where `pat` stands in `text`, as
/// `text[from..].find(pat)` finds it (shifted by `from`).
pub open spec fn find_from(text: Seq<char>, pat: Seq<char>, from: int) -> Option<int>
    decreases text.len() + 1 - from,
{
    if from < 0 || from + pat.len() > text.len() {
        None
    } else if occurs_at(text, pat, from) {
        Some(from)
    } else {
        find_from(text, pat, from + 1)
    }
}

pub proof fn lemma_find_from(text: Seq<char>, pat: Seq<char>, from: int)
    requires
        0 <= from,
    ensures
        find_from(text, pat, from) matches Some(i) ==> {
            &&& from <= i
            &&& occurs_at(text, pat, i)
            &&& forall|j: int| from <= j < i ==> !occurs_at(text, pat, j)
        },
        find_from(text, pat, from) is None ==> forall|j: int|
            from <= j ==> !occurs_at(text, pat, j),
    decreases text.len() + 1 - from,
{
    if from + pat.len() > text.len() {
    } else if occurs_at(text, pat, from) {
    } else {
        lemma_find_from(text, pat, from + 1);
    }
}

/// Whether `pat` stands in `text` at `i`.
pub fn occurs_at_exec(text: &Vec<char>, pat: &Vec<char>, i: usize) -> (r: bool)
    ensures
        r == occurs_at(text@, pat@, i as int),
{
    if i > text.len() || pat.len() > text.len() - i {
        return false;
    }
    for j in 0..pat.len()
        invariant
            i + pat@.len() <= text.len(),
            forall|k: int| 0 <= k < j ==> text@[i + k] == pat@[k],
    {
        let k = i + j;
        if text[k] != pat[j] {
            assert(text@.subrange(i as int, i + pat@.len())[j as int] == text@[i + j]);
            return false;
        }
    }
    assert(text@.subrange(i as int, i + pat@.len()) =~= pat@);
    true
}

/// `text[from..].find(pat)`, as an index into `text`.
pub fn find_from_exec(text: &Vec<char>, pat: &Vec<char>, from: usize) -> (r: Option<usize>)
    ensures
        match r {
            Some(i) => find_from(text@, pat@, from as int) == Some(i as int),
            None => find_from(text@, pat@, from as int) is None,
        },
{
    if pat.len() > text.len() {
        proof {
            lemma_find_from(text@, pat@, from as int);
            assert(find_from(text@, pat@, from as int) is None) by {
                if let Some(i) = find_from(text@, pat@, from as int) {
                    assert(occurs_at(text@, pat@, i));
                }
            }
        }
        return None;
    }
    let last = text.len() - pat.len();
    let mut i = from;
    while i <= last
        invariant
            last + pat@.len() == text@.len(),
            from <= i,
            find_from(text@, pat@, from as int) == find_from(text@, pat@, i as int),
        decreases last + 1 - i,
    {
        if occurs_at_exec(text, pat, i) {
            return Some(i);
        }
        if i == last {
            assert(find_from(text@, pat@, i as int) == find_from(text@, pat@, i + 1));
            assert(find_from(text@, pat@, i + 1) is None);
            return None;
        }
        i = i + 1;
    }
    None
}

/// `text.contains(pat)` on character vectors.
pub fn chars_contain(text: &Vec<char>, pat: &Vec<char>) -> (r: bool)
    ensures
        r == seq_contains(text@, pat@),
{
    let found = find_from_exec(text, pat, 0);
    proof {
        lemma_find_from(text@, pat@, 0);
    }
    match found {
        Some(i) => {
            assert(occurs_at(text@, pat@, i as int));
            true
        },
        None => {
            assert forall|j: int| !occurs_at(text@, pat@, j) by {
                if 0 <= j {
                }
            }
            false
        },
    }
}

/// `text.contains(pat)`.
pub fn str_contains(text: &str, pat: &str) -> (r: bool)
    ensures
        r == seq_contains(text@, pat@),
{
    let t = chars_of(text);
    let p = chars_of(pat);
    chars_contain(&t, &p)
}

} // verus!

verus! {

// ---------------------------------------------------------------------------
// Sorted string lists
// ---------------------------------------------------------------------------

pub proof fn lemma_less_irreflexive(a: Seq<char>)
    ensures
        !seq_less(a, a),
{
}

pub proof fn lemma_less_transitive(a: Seq<char>, b: Seq<char>, c: Seq<char>)
    requires
        seq_less(a, b),
        seq_less(b, c),
    ensures
        seq_less(a, c),
{
    let k1 = choose|k: int|
        #![trigger a.take(k), b.take(k)]
        0 <= k <= a.len() && k <= b.len() && a.take(k) == b.take(k) && ((k == a.len() && k
            < b.len()) || (k < a.len() && k < b.len() && a[k] < b[k]));
    let k2 = choose|k: int|
        #![trigger b.take(k), c.take(k)]
        0 <= k <= b.len() && k <= c.len() && b.take(k) == c.take(k) && ((k == b.len() && k
            < c.len()) || (k < b.len() && k < c.len() && b[k] < c[k]));
    if k1 <= k2 {
        assert(a.take(k1) == c.take(k1)) by {
            assert forall|i: int| 0 <= i < k1 implies a.take(k1)[i] == c.take(k1)[i] by {
                assert(a.take(k1)[i] == b.take(k1)[i]);
                assert(b.take(k2)[i] == c.take(k2)[i]);
            }
            assert(a.take(k1) =~= c.take(k1));
        }
        if k1 < a.len() && k1 < b.len() && k1 < k2 {
            assert(b.take(k2)[k1] == c.take(k2)[k1]);
        }
        assert(a.take(k1) == c.take(k1));
    } else {
        assert(a.take(k2) == c.take(k2)) by {
            assert forall|i: int| 0 <= i < k2 implies a.take(k2)[i] == c.take(k2)[i] by {
                assert(a.take(k1)[i] == b.take(k1)[i]);
                assert(b.take(k2)[i] == c.take(k2)[i]);
            }
            assert(a.take(k2) =~= c.take(k2));
        }
        assert(a.take(k1)[k2] == b.take(k1)[k2]);
        assert(a.take(k2) == c.take(k2));
    }
}

/// Every element is less than every later one: sorted, and no duplicates.
pub open spec fn strictly_sorted(s: Seq<Seq<char>>) -> bool {
    forall|i: int, j: int| 0 <= i < j < s.len() ==> seq_less(#[trigger] s[i], #[trigger] s[j])
}

/// The position of `x` in a strictly sorted list: `(i, true)` when `x`
/// stands at `i`, `(i, false)` when `x` belongs at `i`.
pub fn locate(v: &Vec<String>, x: &str) -> (r: (usize, bool))
    requires
        strictly_sorted(views(v@)),
    ensures
        r.0 <= v@.len(),
        forall|i: int| 0 <= i < r.0 ==> seq_less(#[trigger] v@[i]@, x@),
        r.1 ==> r.0 < v@.len() && v@[r.0 as int]@ == x@,
        !r.1 ==> forall|j: int| r.0 <= j < v@.len() ==> seq_less(x@, #[trigger] v@[j]@),
{
    let xs = chars_of(x);
    let mut i: usize = 0;
    while i < v.len()
        invariant
            i <= v@.len(),
            xs@ == x@,
            strictly_sorted(views(v@)),
            forall|k: int| 0 <= k < i ==> seq_less(#[trigger] v@[k]@, x@),
        decreases v@.len() - i,
    {
        let ys = chars_of(v[i].as_str());
        match chars_order(&ys, &xs) {
            Some(true) => {},
            Some(false) => {
                proof {
                    assert forall|j: int| i <= j < v@.len() implies seq_less(x@, #[trigger] v@[j]@) by {
                        if j > i {
                            assert(views(v@)[i as int] == v@[i as int]@);
                            assert(views(v@)[j] == v@[j]@);
                            lemma_less_transitive(x@, v@[i as int]@, v@[j]@);
                        }
                    }
                }
                return (i, false);
            },
            None => {
                return (i, true);
            },
        }
        i = i + 1;
    }
    (i, false)
}

/// Adds `x` to a strictly sorted list, unless it is there already.
pub fn insert_sorted(v: &mut Vec<String>, x: String)
    requires
        strictly_sorted(views(old(v)@)),
    ensures
        strictly_sorted(views(final(v)@)),
        forall|s: Seq<char>|
            views(final(v)@).contains(s) <==> (views(old(v)@).contains(s) || s == x@),
{
    let (i, found) = locate(v, x.as_str());
    if found {
        assert forall|s: Seq<char>|
            views(v@).contains(s) <==> (views(v@).contains(s) || s == x@) by {
            if s == x@ {
                assert(views(v@)[i as int] == x@);
            }
        }
        return ;
    }
    let ghost old_v = v@;
    let ghost xv = x@;
    v.insert(i, x);
    assert(v@ == old_v.insert(i as int, x));
    assert(views(v@) =~= views(old_v).insert(i as int, xv));
    assert forall|a: int, b: int| 0 <= a < b < views(v@).len() implies seq_less(
        #[trigger] views(v@)[a],
        #[trigger] views(v@)[b],
    ) by {
        if b < i {
        } else if a < i && b == i {
        } else if a < i && b > i {
            assert(views(old_v)[a] == old_v[a]@);
            assert(views(old_v)[b - 1] == old_v[b - 1]@);
        } else if a == i {
            assert(views(old_v)[b - 1] == old_v[b - 1]@);
        } else {
        }
    }
    assert forall|s: Seq<char>|
        views(v@).contains(s) <==> (views(old_v).contains(s) || s == xv) by {
        if views(v@).contains(s) {
            let k = choose|k: int| 0 <= k < views(v@).len() && views(v@)[k] == s;
            if k < i {
                assert(views(old_v)[k] == s);
            } else if k > i {
                assert(views(old_v)[k - 1] == s);
            }
        }
        if views(old_v).contains(s) {
            let k = choose|k: int| 0 <= k < views(old_v).len() && views(old_v)[k] == s;
            if k < i {
                assert(views(v@)[k] == s);
            } else {
                assert(views(v@)[k + 1] == s);
            }
        }
        if s == xv {
            assert(views(v@)[i as int] == s);
        }
    }
}

} // verus!

verus! {

/// One `- item` line per item.
pub open spec fn bullet_lines(items: Seq<Seq<char>>) -> Seq<char>
    decreases items.len(),
{
    if items.len() == 0 {
        Seq::empty()
    } else {
        bullet_lines(items.drop_last()) + "- "@ + items.last() + "\n"@
    }
}

/// Appends one `- item` line per item.
pub fn push_bullet_lines(out: &mut String, items: &Vec<String>)
    ensures
        final(out)@ == old(out)@ + bullet_lines(views(items@)),
{
    let ghost start = out@;
    let ghost all = views(items@);
    for i in 0..items.len()
        invariant
            all == views(items@),
            out@ == start + bullet_lines(all.take(i as int)),
    {
        assert(all.take(i + 1).drop_last() == all.take(i as int));
        out.append("- ");
        out.append(items[i].as_str());
        out.append("\n");
    }
    assert(all.take(items@.len() as int) == all);
}

} // verus!

verus! {

/// Two strictly sorted lists with the same elements are the same list.
pub proof fn lemma_sorted_unique(x: Seq<Seq<char>>, y: Seq<Seq<char>>)
    requires
        strictly_sorted(x),
        strictly_sorted(y),
        forall|s: Seq<char>| x.contains(s) <==> y.contains(s),
    ensures
        x == y,
    decreases x.len() + y.len(),
{
    if x.len() == 0 {
        if y.len() > 0 {
            assert(y.contains(y[0]));
        }
        assert(x =~= y);
    } else if y.len() == 0 {
        assert(x.contains(x[0]));
    } else {
        assert(x.contains(x[0]));
        assert(y.contains(y[0]));
        let i = choose|i: int| 0 <= i < x.len() && x[i] == y[0];
        let j = choose|j: int| 0 <= j < y.len() && y[j] == x[0];
        if x[0] != y[0] {
            assert(i > 0 && j > 0);
            assert(seq_less(x[0], x[i]));
            assert(seq_less(y[0], y[j]));
            lemma_less_transitive(x[0], y[0], x[0]);
            lemma_less_irreflexive(x[0]);
        }
        let xs = x.drop_first();
        let ys = y.drop_first();
        assert forall|s: Seq<char>| xs.contains(s) <==> ys.contains(s) by {
            if xs.contains(s) {
                let k = choose|k: int| 0 <= k < xs.len() && xs[k] == s;
                assert(seq_less(x[0], x[k + 1]));
                assert(x.contains(s));
                let m = choose|m: int| 0 <= m < y.len() && y[m] == s;
                if m == 0 {
                    lemma_less_irreflexive(x[0]);
                }
                assert(ys[m - 1] == s);
            }
            if ys.contains(s) {
                let k = choose|k: int| 0 <= k < ys.len() && ys[k] == s;
                assert(seq_less(y[0], y[k + 1]));
                assert(y.contains(s));
                let m = choose|m: int| 0 <= m < x.len() && x[m] == s;
                if m == 0 {
                    lemma_less_irreflexive(y[0]);
                }
                assert(xs[m - 1] == s);
            }
        }
        assert forall|a: int, b: int| 0 <= a < b < xs.len() implies seq_less(
            #[trigger] xs[a],
            #[trigger] xs[b],
        ) by {
            assert(seq_less(x[a + 1], x[b + 1]));
        }
        assert forall|a: int, b: int| 0 <= a < b < ys.len() implies seq_less(
            #[trigger] ys[a],
            #[trigger] ys[b],
        ) by {
            assert(seq_less(y[a + 1], y[b + 1]));
        }
        lemma_sorted_unique(xs, ys);
        assert(x =~= seq![x[0]] + xs);
        assert(y =~= seq![y[0]] + ys);
    }
}

} // verus!
