//! Text helpers over character sequences: equality, trimming, replacing,
//! joining and the lexicographic order of strings.
use vstd::prelude::*;

verus! {

/// Whether the characters of `a` and `b` are the same.
pub fn same_text(a: &str, b: &str) -> (res: bool)
    ensures
        res == (a@ == b@),
{
    let n = a.unicode_len();
    let m = b.unicode_len();
    if n != m {
        return false;
    }
    let mut i: usize = 0;
    while i < n
        invariant
            n == a@.len(),
            m == b@.len(),
            n == m,
            i <= n,
            forall|k: int| 0 <= k < i ==> a@[k] == b@[k],
        decreases n - i,
    {
        if a.get_char(i) != b.get_char(i) {
            return false;
        }
        i = i + 1;
    }
    assert(a@ =~= b@);
    true
}

} // verus!

verus! {

/// The characters that Unicode gives the `White_Space` property, the ones
/// `char::is_whitespace` accepts.
pub open spec fn is_white_space(c: char) -> bool {
    let u = c as int;
    ||| 0x9 <= u <= 0xD
    ||| u == 0x20
    ||| u == 0x85
    ||| u == 0xA0
    ||| u == 0x1680
    ||| 0x2000 <= u <= 0x200A
    ||| u == 0x2028
    ||| u == 0x2029
    ||| u == 0x202F
    ||| u == 0x205F
    ||| u == 0x3000
}

/// Whether `c` is a white-space character.
pub fn white_space(c: char) -> (res: bool)
    ensures
        res == is_white_space(c),
{
    let u = c as u32;
    (0x9 <= u && u <= 0xD) || u == 0x20 || u == 0x85 || u == 0xA0 || u == 0x1680 || (0x2000 <= u
        && u <= 0x200A) || u == 0x2028 || u == 0x2029 || u == 0x202F || u == 0x205F || u == 0x3000
}

/// `s` without its leading white space.
pub open spec fn trim_start(s: Seq<char>) -> Seq<char>
    decreases s.len(),
{
    if s.len() > 0 && is_white_space(s[0]) {
        trim_start(s.drop_first())
    } else {
        s
    }
}

/// `s` without its trailing white space.
pub open spec fn trim_end(s: Seq<char>) -> Seq<char>
    decreases s.len(),
{
    if s.len() > 0 && is_white_space(s.last()) {
        trim_end(s.drop_last())
    } else {
        s
    }
}

/// `s` without leading and trailing white space.
pub open spec fn trimmed(s: Seq<char>) -> Seq<char> {
    trim_end(trim_start(s))
}

/// The slice of `s` without leading and trailing white space, as `str::trim` gives it.
pub fn trim(s: &str) -> (res: &str)
    ensures
        res@ == trimmed(s@),
{
    let n = s.unicode_len();
    let mut i: usize = 0;
    assert(s@.subrange(0, n as int) =~= s@);
    while i < n && white_space(s.get_char(i))
        invariant
            n == s@.len(),
            i <= n,
            trim_start(s@) == trim_start(s@.subrange(i as int, n as int)),
        decreases n - i,
    {
        assert(s@.subrange(i as int, n as int).drop_first() =~= s@.subrange(i + 1, n as int));
        i = i + 1;
    }
    assert(trim_start(s@.subrange(i as int, n as int)) == s@.subrange(i as int, n as int));
    let mut j: usize = n;
    while j > i && white_space(s.get_char(j - 1))
        invariant
            n == s@.len(),
            i <= j <= n,
            trimmed(s@) == trim_end(s@.subrange(i as int, j as int)),
        decreases j,
    {
        assert(s@.subrange(i as int, j as int).drop_last() =~= s@.subrange(i as int, j - 1));
        j = j - 1;
    }
    s.substring_char(i, j)
}

/// `s` with every occurrence of `from` replaced by `to`.
pub open spec fn replaced(s: Seq<char>, from: char, to: Seq<char>) -> Seq<char>
    decreases s.len(),
{
    if s.len() == 0 {
        seq![]
    } else {
        replaced(s.drop_last(), from, to) + (if s.last() == from {
            to
        } else {
            seq![s.last()]
        })
    }
}

/// A copy of `s` where every `from` becomes `to`, as `str::replace` gives it.
pub fn replace_char(s: &str, from: char, to: &str) -> (res: String)
    ensures
        res@ == replaced(s@, from, to@),
{
    let n = s.unicode_len();
    let mut res = String::new();
    let mut i: usize = 0;
    while i < n
        invariant
            n == s@.len(),
            i <= n,
            res@ == replaced(s@.subrange(0, i as int), from, to@),
        decreases n - i,
    {
        assert(s@.subrange(0, i + 1).drop_last() =~= s@.subrange(0, i as int));
        if s.get_char(i) == from {
            res.append(to);
        } else {
            res.append(s.substring_char(i, i + 1));
            assert(s@.subrange(i as int, i + 1) =~= seq![s@[i as int]]);
        }
        i = i + 1;
    }
    assert(s@.subrange(0, n as int) =~= s@);
    res
}

/// The parts one after the other, with `sep` between two neighbours.
pub open spec fn joined(parts: Seq<Seq<char>>, sep: Seq<char>) -> Seq<char>
    decreases parts.len(),
{
    if parts.len() == 0 {
        seq![]
    } else if parts.len() == 1 {
        parts[0]
    } else {
        joined(parts.drop_last(), sep) + sep + parts.last()
    }
}

/// The characters of each part.
pub open spec fn texts(parts: Seq<&str>) -> Seq<Seq<char>> {
    parts.map_values(|p: &str| p@)
}

/// The parts joined by `sep`, as `[&str]::join` gives them.
pub fn join(parts: &Vec<&str>, sep: &str) -> (res: String)
    ensures
        res@ == joined(texts(parts@), sep@),
{
    let mut res = String::new();
    let ghost all = texts(parts@);
    let mut i: usize = 0;
    while i < parts.len()
        invariant
            all == texts(parts@),
            i <= parts.len(),
            res@ == joined(all.take(i as int), sep@),
        decreases parts.len() - i,
    {
        assert(all.take(i + 1).drop_last() =~= all.take(i as int));
        if i != 0 {
            res.append(sep);
        } else {
            assert(res@ =~= seq![]);
        }
        res.append(parts[i]);
        i = i + 1;
    }
    assert(all.take(parts.len() as int) =~= all);
    res
}

/// Lexicographic order of character sequences, by code point: the order in
/// which `str` compares, since UTF-8 keeps the order of code points.
pub open spec fn text_le(a: Seq<char>, b: Seq<char>) -> bool
    decreases a.len(),
{
    if a.len() == 0 {
        true
    } else if b.len() == 0 {
        false
    } else if a[0] != b[0] {
        (a[0] as int) < (b[0] as int)
    } else {
        text_le(a.drop_first(), b.drop_first())
    }
}

/// Whether `a` comes before `b` or equals it in lexicographic order.
pub fn text_at_most(a: &str, b: &str) -> (res: bool)
    ensures
        res == text_le(a@, b@),
{
    let n = a.unicode_len();
    let m = b.unicode_len();
    let mut i: usize = 0;
    assert(a@.skip(0) =~= a@);
    assert(b@.skip(0) =~= b@);
    while i < n && i < m && a.get_char(i) == b.get_char(i)
        invariant
            n == a@.len(),
            m == b@.len(),
            i <= n,
            i <= m,
            text_le(a@, b@) == text_le(a@.skip(i as int), b@.skip(i as int)),
        decreases n - i,
    {
        assert(a@.skip(i as int).drop_first() =~= a@.skip(i + 1));
        assert(b@.skip(i as int).drop_first() =~= b@.skip(i + 1));
        i = i + 1;
    }
    if i == n {
        true
    } else if i == m {
        false
    } else {
        a.get_char(i) < b.get_char(i)
    }
}

/// Every text is at most itself.
pub proof fn lemma_text_le_reflexive(a: Seq<char>)
    ensures
        text_le(a, a),
    decreases a.len(),
{
    if a.len() > 0 {
        lemma_text_le_reflexive(a.drop_first());
    }
}

/// Any two texts are ordered one way or the other.
pub proof fn lemma_text_le_total(a: Seq<char>, b: Seq<char>)
    ensures
        text_le(a, b) || text_le(b, a),
    decreases a.len(),
{
    if a.len() > 0 && b.len() > 0 {
        if a[0] == b[0] {
            lemma_text_le_total(a.drop_first(), b.drop_first());
        } else {
            assert((a[0] as int) != (b[0] as int));
        }
    }
}

/// Two texts each at most the other are equal.
pub proof fn lemma_text_le_antisymmetric(a: Seq<char>, b: Seq<char>)
    requires
        text_le(a, b),
        text_le(b, a),
    ensures
        a == b,
    decreases a.len(),
{
    if a.len() > 0 && b.len() > 0 {
        lemma_text_le_antisymmetric(a.drop_first(), b.drop_first());
        assert(a =~= seq![a[0]] + a.drop_first());
        assert(b =~= seq![b[0]] + b.drop_first());
    }
}

/// The order of texts is transitive.
pub proof fn lemma_text_le_transitive(a: Seq<char>, b: Seq<char>, c: Seq<char>)
    requires
        text_le(a, b),
        text_le(b, c),
    ensures
        text_le(a, c),
    decreases a.len(),
{
    if a.len() > 0 && b.len() > 0 && c.len() > 0 && a[0] == b[0] && b[0] == c[0] {
        lemma_text_le_transitive(a.drop_first(), b.drop_first(), c.drop_first());
    }
}

} // verus!

verus! {

/// `a` is at most `b` in lexicographic order exactly when `a` is a prefix of
/// `b`, or where they first differ `a` has the smaller character.
pub proof fn lemma_text_le_meaning(a: Seq<char>, b: Seq<char>)
    ensures
        text_le(a, b) <==> ((a.len() <= b.len() && b.take(a.len() as int) == a) || exists|i: int|
            0 <= i < a.len() && i < b.len() && #[trigger] a.take(i) == b.take(i) && (a[i] as int) < (
            b[i] as int)),
    decreases a.len(),
{
    if a.len() == 0 {
        assert(b.take(0) =~= a);
    } else if b.len() == 0 {
    } else if a[0] != b[0] {
        assert(a.take(0) =~= b.take(0));
        if a.len() <= b.len() && b.take(a.len() as int) == a {
            assert(b.take(a.len() as int)[0] == b[0]);
        }
        assert forall|i: int| 0 < i < a.len() && i < b.len() implies #[trigger] a.take(i) != b.take(i) by {
            assert(a.take(i)[0] == a[0]);
            assert(b.take(i)[0] == b[0]);
        }
    } else {
        let a1 = a.drop_first();
        let b1 = b.drop_first();
        lemma_text_le_meaning(a1, b1);
        if a1.len() <= b1.len() && b1.take(a1.len() as int) == a1 {
            assert(b.take(a.len() as int) =~= seq![a[0]] + b1.take(a1.len() as int));
            assert(a =~= seq![a[0]] + a1);
        }
        if a.len() <= b.len() && b.take(a.len() as int) == a {
            assert forall|k: int| 0 <= k < a1.len() implies b1.take(a1.len() as int)[k] == a1[k] by {
                assert(b.take(a.len() as int)[k + 1] == a[k + 1]);
            }
            assert(b1.take(a1.len() as int) =~= a1);
        }
        if exists|i: int|
            0 <= i < a1.len() && i < b1.len() && #[trigger] a1.take(i) == b1.take(i) && (a1[i] as int) < (
            b1[i] as int) {
            let i = choose|i: int|
                0 <= i < a1.len() && i < b1.len() && #[trigger] a1.take(i) == b1.take(i) && (a1[i] as int)
                    < (b1[i] as int);
            assert(a.take(i + 1) =~= seq![a[0]] + a1.take(i));
            assert(b.take(i + 1) =~= seq![b[0]] + b1.take(i));
            assert(a.take(i + 1) == b.take(i + 1));
        }
        if exists|i: int|
            0 <= i < a.len() && i < b.len() && #[trigger] a.take(i) == b.take(i) && (a[i] as int) < (
            b[i] as int) {
            let i = choose|i: int|
                0 <= i < a.len() && i < b.len() && #[trigger] a.take(i) == b.take(i) && (a[i] as int) < (
                b[i] as int);
            if i == 0 {
            } else {
                assert forall|k: int| 0 <= k < i - 1 implies #[trigger] a1.take(i - 1)[k] == b1.take(i - 1)[k] by {
                    assert(a.take(i)[k + 1] == b.take(i)[k + 1]);
                }
                assert(a1.take(i - 1) =~= b1.take(i - 1));
                assert(a1[i - 1] == a[i]);
            }
        }
    }
}

} // verus!
