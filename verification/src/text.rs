//! Character-level string utilities with exact specifications.
//!
//! Strings are viewed as sequences of Unicode scalar values (`Seq<char>`), as `str`'s view in
//! vstd does.
use vstd::prelude::*;

verus! {

broadcast use vstd::seq_lib::group_seq_properties;

// ---------------------------------------------------------------------------------------------
// Specifications
// ---------------------------------------------------------------------------------------------

/// The position of the first occurrence of `c` in `s`.
pub open spec fn find_char(s: Seq<char>, c: char) -> Option<int>
    decreases s.len(),
{
    if s.len() == 0 {
        None
    } else if s[0] == c {
        Some(0)
    } else {
        match find_char(s.drop_first(), c) {
            Some(i) => Some(i + 1),
            None => None,
        }
    }
}

/// `s` split at the first occurrence of `c`, the separator itself dropped (`str::split_once`).
pub open spec fn split_once(s: Seq<char>, c: char) -> Option<(Seq<char>, Seq<char>)> {
    match find_char(s, c) {
        Some(i) => Some((s.take(i), s.skip(i + 1))),
        None => None,
    }
}

/// `s` starts with `p`.
pub open spec fn starts_with(s: Seq<char>, p: Seq<char>) -> bool {
    p.len() <= s.len() && s.take(p.len() as int) == p
}

/// `s` ends with `p`.
pub open spec fn ends_with(s: Seq<char>, p: Seq<char>) -> bool {
    p.len() <= s.len() && s.skip(s.len() - p.len()) == p
}

/// `s` without the prefix `p`, if it has that prefix (`str::strip_prefix`).
pub open spec fn strip_prefix(s: Seq<char>, p: Seq<char>) -> Option<Seq<char>> {
    if starts_with(s, p) {
        Some(s.skip(p.len() as int))
    } else {
        None
    }
}

/// Splitting with an accumulator: `cur` holds the characters of the piece under construction.
pub open spec fn split_acc(cur: Seq<char>, rest: Seq<char>, c: char) -> Seq<Seq<char>>
    decreases rest.len(),
{
    if rest.len() == 0 {
        seq![cur]
    } else if rest[0] == c {
        seq![cur] + split_acc(Seq::empty(), rest.drop_first(), c)
    } else {
        split_acc(cur.push(rest[0]), rest.drop_first(), c)
    }
}

/// The pieces of `s` between occurrences of `c` (`str::split` with a `char` pattern).
/// There is always at least one piece; the empty string has exactly one, the empty piece.
pub open spec fn split_char(s: Seq<char>, c: char) -> Seq<Seq<char>> {
    split_acc(Seq::empty(), s, c)
}

/// The pieces of `parts` concatenated with `sep` between them (`[String]::join`).
pub open spec fn join(parts: Seq<Seq<char>>, sep: Seq<char>) -> Seq<char>
    decreases parts.len(),
{
    if parts.len() == 0 {
        Seq::empty()
    } else if parts.len() == 1 {
        parts[0]
    } else {
        parts[0] + sep + join(parts.drop_first(), sep)
    }
}

/// The concatenation of all pieces.
pub open spec fn concat(parts: Seq<Seq<char>>) -> Seq<char>
    decreases parts.len(),
{
    if parts.len() == 0 {
        Seq::empty()
    } else {
        parts[0] + concat(parts.drop_first())
    }
}

/// A line without the carriage return that ended it.
pub open spec fn strip_cr(l: Seq<char>) -> Seq<char> {
    if l.len() > 0 && l.last() == '\r' {
        l.drop_last()
    } else {
        l
    }
}

/// The lines of `s` as `str::lines` yields them: split at `\n`, each line that a `\n` ends loses
/// one trailing `\r`, and a final empty piece (after a trailing `\n`, or of the empty string) is
/// not a line.
pub open spec fn lines(s: Seq<char>) -> Seq<Seq<char>> {
    let parts = split_char(s, '\n');
    let body = parts.drop_last().map_values(|l: Seq<char>| strip_cr(l));
    if parts.last().len() == 0 {
        body
    } else {
        body.push(parts.last())
    }
}

/// `char::is_whitespace`: the Unicode `White_Space` property.
pub open spec fn is_whitespace(c: char) -> bool {
    let u = c as u32;
    (0x9 <= u && u <= 0xd) || u == 0x20 || u == 0x85 || u == 0xa0 || u == 0x1680 || (0x2000 <= u
        && u <= 0x200a) || u == 0x2028 || u == 0x2029 || u == 0x202f || u == 0x205f || u == 0x3000
}

/// `s` without leading whitespace.
pub open spec fn trim_start(s: Seq<char>) -> Seq<char>
    decreases s.len(),
{
    if s.len() > 0 && is_whitespace(s[0]) {
        trim_start(s.drop_first())
    } else {
        s
    }
}

/// `s` without trailing whitespace.
pub open spec fn trim_end(s: Seq<char>) -> Seq<char>
    decreases s.len(),
{
    if s.len() > 0 && is_whitespace(s.last()) {
        trim_end(s.drop_last())
    } else {
        s
    }
}

/// `s` without leading and trailing whitespace (`str::trim`).
pub open spec fn trim(s: Seq<char>) -> Seq<char> {
    trim_end(trim_start(s))
}

/// The decimal digit for `d < 10`.
pub open spec fn digit_char(d: nat) -> char {
    if d == 0 {
        '0'
    } else if d == 1 {
        '1'
    } else if d == 2 {
        '2'
    } else if d == 3 {
        '3'
    } else if d == 4 {
        '4'
    } else if d == 5 {
        '5'
    } else if d == 6 {
        '6'
    } else if d == 7 {
        '7'
    } else if d == 8 {
        '8'
    } else {
        '9'
    }
}

/// The decimal representation of `n`, without leading zeros (as `Display` prints integers).
pub open spec fn decimal(n: nat) -> Seq<char>
    decreases n,
{
    if n < 10 {
        seq![digit_char(n)]
    } else {
        decimal(n / 10).push(digit_char(n % 10))
    }
}

/// Lexicographic order on strings by code point, which is the order of `String`'s `Ord`
/// (UTF-8 byte order and code point order agree).
pub open spec fn str_less(a: Seq<char>, b: Seq<char>) -> bool
    decreases a.len(),
{
    if a.len() == 0 {
        b.len() > 0
    } else if b.len() == 0 {
        false
    } else if a[0] != b[0] {
        (a[0] as int) < (b[0] as int)
    } else {
        str_less(a.drop_first(), b.drop_first())
    }
}

/// The outcome of comparing two strings.
#[derive(PartialEq, Eq, Structural, Clone, Copy, Debug)]
pub enum Cmp {
    Less,
    Equal,
    Greater,
}

// ---------------------------------------------------------------------------------------------
// Lemmas
// ---------------------------------------------------------------------------------------------

/// `find_char` yields the first position holding `c`, or nothing if there is none.
pub proof fn lemma_find_char(s: Seq<char>, c: char)
    ensures
        find_char(s, c) is None <==> !s.contains(c),
        find_char(s, c) matches Some(i) ==> 0 <= i < s.len() && s[i] == c && forall|j: int|
            0 <= j < i ==> s[j] != c,
    decreases s.len(),
{
    if s.len() > 0 {
        lemma_find_char(s.drop_first(), c);
        if s[0] != c {
            if s.contains(c) {
                let k = choose|k: int| 0 <= k < s.len() && s[k] == c;
                assert(s.drop_first()[k - 1] == c);
            }
            if s.drop_first().contains(c) {
                let k = choose|k: int| 0 <= k < s.len() - 1 && s.drop_first()[k] == c;
                assert(s[k + 1] == c);
            }
            if let Some(i) = find_char(s, c) {
                assert forall|j: int| 0 <= j < i implies s[j] != c by {
                    if j > 0 {
                        assert(s[j] == s.drop_first()[j - 1]);
                    }
                }
            }
        }
    }
}

/// A position that holds `c` and is preceded by none is the one `find_char` yields.
pub proof fn lemma_find_char_at(s: Seq<char>, c: char, i: int)
    requires
        0 <= i < s.len(),
        s[i] == c,
        forall|j: int| 0 <= j < i ==> s[j] != c,
    ensures
        find_char(s, c) == Some(i),
{
    lemma_find_char(s, c);
    if let Some(k) = find_char(s, c) {
        if k < i {
            assert(s[k] != c);
        }
        if k > i {
            assert(s[i] != c);
        }
    }
}

/// Every splitting yields at least one piece.
pub proof fn lemma_split_acc_nonempty(cur: Seq<char>, rest: Seq<char>, c: char)
    ensures
        split_acc(cur, rest, c).len() >= 1,
        split_acc(cur, rest, c)[0].len() >= cur.len(),
        split_acc(cur, rest, c)[0].take(cur.len() as int) == cur,
    decreases rest.len(),
{
    if rest.len() > 0 && rest[0] != c {
        lemma_split_acc_nonempty(cur.push(rest[0]), rest.drop_first(), c);
        let r = split_acc(cur.push(rest[0]), rest.drop_first(), c);
        assert(r[0].take(cur.len() as int) == r[0].take(cur.len() + 1 as int).take(cur.len() as int));
    }
}

/// A stretch without `c` joins the piece under construction.
pub proof fn lemma_split_acc_append(cur: Seq<char>, p: Seq<char>, r: Seq<char>, c: char)
    requires
        !p.contains(c),
    ensures
        split_acc(cur, p + r, c) == split_acc(cur + p, r, c),
    decreases p.len(),
{
    if p.len() == 0 {
        assert(p + r == r);
        assert(cur + p == cur);
    } else {
        assert((p + r)[0] == p[0]);
        assert((p + r).drop_first() == p.drop_first() + r);
        assert(!p.drop_first().contains(c)) by {
            if p.drop_first().contains(c) {
                let k = choose|k: int| 0 <= k < p.len() - 1 && p.drop_first()[k] == c;
                assert(p[k + 1] == c);
            }
        }
        lemma_split_acc_append(cur.push(p[0]), p.drop_first(), r, c);
        assert(cur.push(p[0]) + p.drop_first() == cur + p);
    }
}

/// Joining the pieces of a split with the separator gives back the string that was split.
pub proof fn lemma_join_split_acc(cur: Seq<char>, rest: Seq<char>, c: char)
    ensures
        join(split_acc(cur, rest, c), seq![c]) == cur + rest,
    decreases rest.len(),
{
    if rest.len() == 0 {
        assert(cur + rest == cur);
    } else if rest[0] == c {
        lemma_join_split_acc(Seq::empty(), rest.drop_first(), c);
        lemma_split_acc_nonempty(Seq::empty(), rest.drop_first(), c);
        let tail = split_acc(Seq::empty(), rest.drop_first(), c);
        let all = seq![cur] + tail;
        assert(all.drop_first() == tail);
        assert(all[0] == cur);
        assert(Seq::<char>::empty() + rest.drop_first() == rest.drop_first());
        assert(cur + seq![c] + rest.drop_first() == cur + rest);
    } else {
        lemma_join_split_acc(cur.push(rest[0]), rest.drop_first(), c);
        assert(cur.push(rest[0]) + rest.drop_first() == cur + rest);
    }
}

/// `join` and `split_char` are inverse: joining the split pieces yields the string.
pub proof fn lemma_join_split(s: Seq<char>, c: char)
    ensures
        join(split_char(s, c), seq![c]) == s,
{
    lemma_join_split_acc(Seq::empty(), s, c);
    assert(Seq::<char>::empty() + s == s);
}

/// Splitting the joined pieces yields the pieces, if none contains the separator.
pub proof fn lemma_split_join(parts: Seq<Seq<char>>, c: char)
    requires
        parts.len() >= 1,
        forall|i: int| 0 <= i < parts.len() ==> !(#[trigger] parts[i]).contains(c),
    ensures
        split_char(join(parts, seq![c]), c) == parts,
    decreases parts.len(),
{
    if parts.len() == 1 {
        lemma_split_acc_append(Seq::empty(), parts[0], Seq::empty(), c);
        assert(parts[0] + Seq::<char>::empty() == parts[0]);
        assert(Seq::<char>::empty() + parts[0] == parts[0]);
        assert(split_char(join(parts, seq![c]), c) == seq![parts[0]]);
    } else {
        let rest = parts.drop_first();
        assert forall|i: int| 0 <= i < rest.len() implies !(#[trigger] rest[i]).contains(c) by {
            assert(rest[i] == parts[i + 1]);
        }
        lemma_split_join(rest, c);
        let j = join(rest, seq![c]);
        assert(parts[0] + seq![c] + j == parts[0] + (seq![c] + j));
        lemma_split_acc_append(Seq::empty(), parts[0], seq![c] + j, c);
        assert(Seq::<char>::empty() + parts[0] == parts[0]);
        assert((seq![c] + j)[0] == c);
        assert((seq![c] + j).drop_first() == j);
        assert(seq![parts[0]] + rest == parts);
    }
}

/// Joining one more piece appends the separator and the piece.
pub proof fn lemma_join_push(parts: Seq<Seq<char>>, x: Seq<char>, sep: Seq<char>)
    ensures
        join(parts.push(x), sep) == if parts.len() == 0 {
            x
        } else {
            join(parts, sep) + sep + x
        },
    decreases parts.len(),
{
    let p = parts.push(x);
    if parts.len() == 0 {
        assert(p.len() == 1);
        assert(p[0] == x);
        assert(join(p, sep) == x);
    } else if parts.len() == 1 {
        assert(p[0] == parts[0]);
        assert(p.drop_first() == seq![x]);
        assert(join(p.drop_first(), sep) == x);
        assert(join(p, sep) == parts[0] + sep + x);
        assert(join(parts, sep) == parts[0]);
    } else {
        assert(p[0] == parts[0]);
        lemma_join_push(parts.drop_first(), x, sep);
        assert(p.drop_first() == parts.drop_first().push(x));
        let j = join(parts.drop_first(), sep);
        assert(join(p, sep) == parts[0] + sep + (j + sep + x));
        assert(join(parts, sep) == parts[0] + sep + j);
        assert(parts[0] + sep + (j + sep + x) == parts[0] + sep + j + sep + x);
    }
}

/// Concatenating one more piece appends it.
pub proof fn lemma_concat_push(parts: Seq<Seq<char>>, x: Seq<char>)
    ensures
        concat(parts.push(x)) == concat(parts) + x,
    decreases parts.len(),
{
    if parts.len() == 0 {
        assert(parts.push(x).drop_first() == Seq::<Seq<char>>::empty());
        assert(x + Seq::<char>::empty() == x);
    } else {
        lemma_concat_push(parts.drop_first(), x);
        assert(parts.push(x).drop_first() == parts.drop_first().push(x));
        assert(parts[0] + (concat(parts.drop_first()) + x) == parts[0] + concat(parts.drop_first())
            + x);
    }
}

/// Exactly one of `a < b`, `a == b`, `b < a` holds.
pub proof fn lemma_str_less_trichotomy(a: Seq<char>, b: Seq<char>)
    ensures
        str_less(a, b) || a == b || str_less(b, a),
        !(str_less(a, b) && str_less(b, a)),
        !(str_less(a, b) && a == b),
    decreases a.len(),
{
    if a.len() > 0 && b.len() > 0 && a[0] == b[0] {
        lemma_str_less_trichotomy(a.drop_first(), b.drop_first());
        if a.drop_first() == b.drop_first() {
            assert(a == seq![a[0]] + a.drop_first());
            assert(b == seq![b[0]] + b.drop_first());
        }
    } else if a.len() == 0 && b.len() == 0 {
        assert(a == b);
    } else if a.len() > 0 && b.len() > 0 {
        assert((a[0] as int) != (b[0] as int));
    }
}

/// The order is transitive.
pub proof fn lemma_str_less_transitive(a: Seq<char>, b: Seq<char>, c: Seq<char>)
    requires
        str_less(a, b),
        str_less(b, c),
    ensures
        str_less(a, c),
    decreases a.len(),
{
    if a.len() > 0 && b.len() > 0 && c.len() > 0 && a[0] == b[0] && b[0] == c[0] {
        lemma_str_less_transitive(a.drop_first(), b.drop_first(), c.drop_first());
    }
}

// ---------------------------------------------------------------------------------------------
// Executable functions
// ---------------------------------------------------------------------------------------------

/// Pushes one character onto a string.
#[verifier::external_body]
pub(crate) fn push_char(s: &mut String, c: char)
    ensures
        final(s)@ == old(s)@.push(c),
{
    s.push(c);
}

/// The characters of `s`, in order.
pub fn chars_of(s: &str) -> (v: Vec<char>)
    ensures
        v@ == s@,
{
    let mut v: Vec<char> = Vec::new();
    for c in it: s.chars()
        invariant
            v@ == it.seq().take(it.index() as int),
    {
        v.push(c);
    }
    v
}

/// The string holding the characters `v[from..to]`.
pub fn string_of(v: &[char], from: usize, to: usize) -> (s: String)
    requires
        from <= to <= v@.len(),
    ensures
        s@ == v@.subrange(from as int, to as int),
{
    let mut s = String::new();
    let mut i = from;
    while i < to
        invariant
            from <= i <= to <= v@.len(),
            s@ == v@.subrange(from as int, i as int),
        decreases to - i,
    {
        push_char(&mut s, v[i]);
        assert(v@.subrange(from as int, i as int).push(v@[i as int]) == v@.subrange(
            from as int,
            i + 1,
        ));
        i = i + 1;
    }
    s
}

/// Appends `t` to `s`.
pub fn push_str(s: &mut String, t: &str)
    ensures
        final(s)@ == old(s)@ + t@,
{
    s.append(t);
}

/// The string `s` as an owned `String`.
pub fn owned(s: &str) -> (r: String)
    ensures
        r@ == s@,
{
    s.to_owned()
}

/// Whether two strings are equal.
pub fn str_eq(a: &str, b: &str) -> (r: bool)
    ensures
        r == (a@ == b@),
{
    let x = chars_of(a);
    let y = chars_of(b);
    if x.len() != y.len() {
        return false;
    }
    let mut i: usize = 0;
    while i < x.len()
        invariant
            x@ == a@,
            y@ == b@,
            x.len() == y.len(),
            0 <= i <= x.len(),
            forall|j: int| 0 <= j < i ==> x@[j] == y@[j],
        decreases x.len() - i,
    {
        if x[i] != y[i] {
            return false;
        }
        i = i + 1;
    }
    assert(x@ == y@);
    true
}

/// The position of the first `c` in `v[from..]`, counted from the start of `v`.
fn find_char_from(v: &Vec<char>, c: char, from: usize) -> (r: Option<usize>)
    requires
        from <= v@.len(),
    ensures
        match r {
            Some(i) => from <= i < v@.len() && v@[i as int] == c && forall|j: int|
                from <= j < i ==> v@[j] != c,
            None => forall|j: int| from <= j < v@.len() ==> v@[j] != c,
        },
{
    let mut i = from;
    while i < v.len()
        invariant
            from <= i <= v@.len(),
            forall|j: int| from <= j < i ==> v@[j] != c,
        decreases v.len() - i,
    {
        if v[i] == c {
            return Some(i);
        }
        i = i + 1;
    }
    None
}

/// Whether `s` contains `c`.
pub fn contains_char(s: &str, c: char) -> (r: bool)
    ensures
        r == s@.contains(c),
{
    let v = chars_of(s);
    match find_char_from(&v, c, 0) {
        Some(i) => {
            assert(s@[i as int] == c);
            true
        },
        None => false,
    }
}

/// `s` split at the first `c` (`str::split_once`).
pub fn split_once_char(s: &str, c: char) -> (r: Option<(String, String)>)
    ensures
        match r {
            Some((a, b)) => split_once(s@, c) == Some((a@, b@)),
            None => split_once(s@, c) is None,
        },
{
    let v = chars_of(s);
    match find_char_from(&v, c, 0) {
        Some(i) => {
            proof {
                lemma_find_char_at(s@, c, i as int);
            }
            let a = string_of(v.as_slice(), 0, i);
            let b = string_of(v.as_slice(), i + 1, v.len());
            assert(s@.take(i as int) == s@.subrange(0, i as int));
            assert(s@.skip(i + 1) == s@.subrange(i + 1, s@.len() as int));
            Some((a, b))
        },
        None => {
            proof {
                lemma_find_char(s@, c);
            }
            None
        },
    }
}

/// Whether `s` starts with `p`.
pub fn starts_with_str(s: &str, p: &str) -> (r: bool)
    ensures
        r == starts_with(s@, p@),
{
    let v = chars_of(s);
    let w = chars_of(p);
    if w.len() > v.len() {
        return false;
    }
    let mut i: usize = 0;
    while i < w.len()
        invariant
            v@ == s@,
            w@ == p@,
            w.len() <= v.len(),
            0 <= i <= w.len(),
            forall|j: int| 0 <= j < i ==> v@[j] == w@[j],
        decreases w.len() - i,
    {
        if v[i] != w[i] {
            assert(s@.take(p@.len() as int)[i as int] != p@[i as int]);
            return false;
        }
        i = i + 1;
    }
    assert(s@.take(p@.len() as int) == p@);
    true
}

/// Whether `s` ends with `p`.
pub fn ends_with_str(s: &str, p: &str) -> (r: bool)
    ensures
        r == ends_with(s@, p@),
{
    let v = chars_of(s);
    let w = chars_of(p);
    if w.len() > v.len() {
        return false;
    }
    let off = v.len() - w.len();
    let mut i: usize = 0;
    while i < w.len()
        invariant
            v@ == s@,
            w@ == p@,
            w.len() <= v.len(),
            off == v.len() - w.len(),
            0 <= i <= w.len(),
            forall|j: int| 0 <= j < i ==> v@[off + j] == w@[j],
        decreases w.len() - i,
    {
        if v[off + i] != w[i] {
            assert(s@.skip(off as int)[i as int] != p@[i as int]);
            return false;
        }
        i = i + 1;
    }
    assert(s@.skip(off as int) == p@);
    true
}

/// `s` without the prefix `p`, if it has it (`str::strip_prefix`).
pub fn strip_prefix_str(s: &str, p: &str) -> (r: Option<String>)
    ensures
        match r {
            Some(t) => strip_prefix(s@, p@) == Some(t@),
            None => strip_prefix(s@, p@) is None,
        },
{
    if starts_with_str(s, p) {
        let v = chars_of(s);
        let w = chars_of(p);
        let t = string_of(v.as_slice(), w.len(), v.len());
        assert(s@.skip(p@.len() as int) == s@.subrange(p@.len() as int, s@.len() as int));
        Some(t)
    } else {
        None
    }
}

/// The pieces of `s` between occurrences of `c` (`str::split`).
pub fn split_str(s: &str, c: char) -> (parts: Vec<String>)
    ensures
        parts@.map_values(|p: String| p@) == split_char(s@, c),
{
    let v = chars_of(s);
    let mut parts: Vec<String> = Vec::new();
    let mut cur = String::new();
    let mut i: usize = 0;
    assert(v@.skip(0) == v@);
    while i < v.len()
        invariant
            v@ == s@,
            0 <= i <= v@.len(),
            parts@.map_values(|p: String| p@) + split_acc(cur@, v@.skip(i as int), c) == split_char(
                s@,
                c,
            ),
        decreases v.len() - i,
    {
        let ghost old_parts = parts@.map_values(|p: String| p@);
        let ghost rest = v@.skip(i as int);
        assert(rest[0] == v@[i as int]);
        assert(rest.drop_first() == v@.skip(i + 1));
        if v[i] == c {
            let ghost old_cur = cur@;
            parts.push(cur);
            cur = String::new();
            assert(parts@.map_values(|p: String| p@) == old_parts.push(old_cur));
            assert(old_parts + (seq![old_cur] + split_acc(Seq::empty(), rest.drop_first(), c))
                == old_parts.push(old_cur) + split_acc(Seq::empty(), rest.drop_first(), c));
        } else {
            push_char(&mut cur, v[i]);
        }
        i = i + 1;
    }
    let ghost before = parts@.map_values(|p: String| p@);
    let ghost last = cur@;
    assert(v@.skip(i as int).len() == 0);
    parts.push(cur);
    assert(parts@.map_values(|p: String| p@) == before.push(last));
    assert(before + seq![last] == before.push(last));
    parts
}

/// The pieces of `parts` with `sep` between them (`[String]::join`).
pub fn join_str(parts: &[String], sep: &str) -> (r: String)
    ensures
        r@ == join(parts@.map_values(|p: String| p@), sep@),
{
    let ghost all = parts@.map_values(|p: String| p@);
    let mut r = String::new();
    let mut i: usize = 0;
    while i < parts.len()
        invariant
            0 <= i <= parts@.len(),
            all == parts@.map_values(|p: String| p@),
            r@ == join(all.take(i as int), sep@),
        decreases parts.len() - i,
    {
        proof {
            lemma_join_push(all.take(i as int), all[i as int], sep@);
            assert(all.take(i as int).push(all[i as int]) == all.take(i + 1));
        }
        if i > 0 {
            push_str(&mut r, sep);
        }
        push_str(&mut r, parts[i].as_str());
        i = i + 1;
    }
    assert(all.take(parts@.len() as int) == all);
    r
}

/// The lines of `s` (`str::lines`).
pub fn lines_of(s: &str) -> (r: Vec<String>)
    ensures
        r@.map_values(|l: String| l@) == lines(s@),
{
    let parts = split_str(s, '\n');
    proof {
        lemma_split_acc_nonempty(Seq::empty(), s@, '\n');
    }
    let ghost pv = parts@.map_values(|p: String| p@);
    let n = parts.len();
    let mut r: Vec<String> = Vec::new();
    let mut i: usize = 0;
    while i + 1 < n
        invariant
            n == parts@.len(),
            n >= 1,
            pv == parts@.map_values(|p: String| p@),
            pv == split_char(s@, '\n'),
            0 <= i < n,
            r@.map_values(|l: String| l@) == pv.take(i as int).map_values(
                |l: Seq<char>| strip_cr(l),
            ),
        decreases n - i,
    {
        let piece = &parts[i];
        let pc = chars_of(piece.as_str());
        let line = if pc.len() > 0 && pc[pc.len() - 1] == '\r' {
            string_of(pc.as_slice(), 0, pc.len() - 1)
        } else {
            string_of(pc.as_slice(), 0, pc.len())
        };
        assert(pc@.subrange(0, pc@.len() - 1) == pc@.drop_last());
        assert(pc@.subrange(0, pc@.len() as int) == pc@);
        let ghost before = r@.map_values(|l: String| l@);
        r.push(line);
        assert(r@.map_values(|l: String| l@) == before.push(strip_cr(pv[i as int])));
        assert(pv.take(i + 1) == pv.take(i as int).push(pv[i as int]));
        assert(pv.take(i + 1).map_values(|l: Seq<char>| strip_cr(l)) == pv.take(
            i as int,
        ).map_values(|l: Seq<char>| strip_cr(l)).push(strip_cr(pv[i as int])));
        i = i + 1;
    }
    assert(pv.take(i as int) == pv.drop_last());
    let last = &parts[n - 1];
    if !last.as_str().is_empty() {
        let ghost before = r@.map_values(|l: String| l@);
        r.push(last.clone());
        assert(r@.map_values(|l: String| l@) == before.push(pv.last()));
    }
    r
}

/// Whether `c` is whitespace (`char::is_whitespace`).
pub fn is_whitespace_char(c: char) -> (r: bool)
    ensures
        r == is_whitespace(c),
{
    let u = c as u32;
    (0x9 <= u && u <= 0xd) || u == 0x20 || u == 0x85 || u == 0xa0 || u == 0x1680 || (0x2000 <= u
        && u <= 0x200a) || u == 0x2028 || u == 0x2029 || u == 0x202f || u == 0x205f || u == 0x3000
}

/// `s` without leading and trailing whitespace (`str::trim`).
#[verifier::spinoff_prover]
#[verifier::rlimit(40)]
pub fn trim_str(s: &str) -> (r: String)
    ensures
        r@ == trim(s@),
{
    let v = chars_of(s);
    let mut i: usize = 0;
    assert(v@.skip(0) == v@);
    while i < v.len() && is_whitespace_char(v[i])
        invariant
            v@ == s@,
            0 <= i <= v@.len(),
            trim_start(s@) == trim_start(v@.skip(i as int)),
        decreases v.len() - i,
    {
        assert(v@.skip(i as int).drop_first() == v@.skip(i + 1));
        i = i + 1;
    }
    let ghost t = v@.skip(i as int);
    assert(trim_start(s@) == t);
    let mut j: usize = v.len();
    assert(t.take(t.len() as int) == t);
    while j > i && is_whitespace_char(v[j - 1])
        invariant
            v@ == s@,
            0 <= i <= j <= v@.len(),
            t == v@.skip(i as int),
            trim_end(t) == trim_end(t.take(j - i)),
        decreases j,
    {
        assert(t.take(j - i).last() == v@[j - 1]);
        assert(t.take(j - i).drop_last() == t.take(j - 1 - i));
        j = j - 1;
    }
    assert(t.take(j - i) == v@.subrange(i as int, j as int));
    string_of(v.as_slice(), i, j)
}

/// The decimal digit `d`.
fn digit(d: u64) -> (c: char)
    requires
        d < 10,
    ensures
        c == digit_char(d as nat),
{
    if d == 0 {
        '0'
    } else if d == 1 {
        '1'
    } else if d == 2 {
        '2'
    } else if d == 3 {
        '3'
    } else if d == 4 {
        '4'
    } else if d == 5 {
        '5'
    } else if d == 6 {
        '6'
    } else if d == 7 {
        '7'
    } else if d == 8 {
        '8'
    } else {
        '9'
    }
}

/// The decimal representation of `n` (as `n.to_string()`).
pub fn decimal_string(n: u64) -> (s: String)
    ensures
        s@ == decimal(n as nat),
    decreases n,
{
    if n < 10 {
        let mut s = String::new();
        push_char(&mut s, digit(n));
        s
    } else {
        let mut s = decimal_string(n / 10);
        push_char(&mut s, digit(n % 10));
        s
    }
}

/// Compares two strings in `String`'s order.
pub fn compare_str(a: &str, b: &str) -> (r: Cmp)
    ensures
        r == Cmp::Less <==> str_less(a@, b@),
        r == Cmp::Equal <==> a@ == b@,
        r == Cmp::Greater <==> str_less(b@, a@),
{
    proof {
        lemma_str_less_trichotomy(a@, b@);
    }
    let x = chars_of(a);
    let y = chars_of(b);
    let mut i: usize = 0;
    assert(x@.skip(0) == x@);
    assert(y@.skip(0) == y@);
    while i < x.len() && i < y.len() && x[i] == y[i]
        invariant
            x@ == a@,
            y@ == b@,
            0 <= i <= x@.len(),
            i <= y@.len(),
            str_less(a@, b@) == str_less(x@.skip(i as int), y@.skip(i as int)),
            str_less(b@, a@) == str_less(y@.skip(i as int), x@.skip(i as int)),
            forall|j: int| 0 <= j < i ==> x@[j] == y@[j],
        decreases x.len() - i,
    {
        assert(x@.skip(i as int).drop_first() == x@.skip(i + 1));
        assert(y@.skip(i as int).drop_first() == y@.skip(i + 1));
        i = i + 1;
    }
    if i == x.len() && i == y.len() {
        assert(x@ == y@);
        Cmp::Equal
    } else if i == x.len() {
        Cmp::Less
    } else if i == y.len() {
        Cmp::Greater
    } else if x[i] < y[i] {
        Cmp::Less
    } else {
        Cmp::Greater
    }
}

} // verus!

verus! {

/// The view of an optional string.
pub open spec fn opt_view(o: Option<String>) -> Option<Seq<char>> {
    match o {
        Some(s) => Some(s@),
        None => None,
    }
}

/// Whether two optional strings are equal.
pub fn opt_same(a: &Option<String>, b: &Option<String>) -> (r: bool)
    ensures
        r == (opt_view(*a) == opt_view(*b)),
{
    match (a, b) {
        (Some(x), Some(y)) => str_eq(x.as_str(), y.as_str()),
        (None, None) => true,
        _ => false,
    }
}

/// A copy of an optional string.
pub fn clone_opt(o: &Option<String>) -> (r: Option<String>)
    ensures
        opt_view(r) == opt_view(*o),
{
    match o {
        Some(s) => Some(s.clone()),
        None => None,
    }
}

/// The value stored under `k` in an association list: that of the first entry with key `k`.
pub open spec fn lookup_first<V>(e: Seq<(Seq<char>, V)>, k: Seq<char>) -> Option<V>
    decreases e.len(),
{
    if e.len() == 0 {
        None
    } else if e[0].0 == k {
        Some(e[0].1)
    } else {
        lookup_first(e.drop_first(), k)
    }
}

/// `lookup_first` finds the first entry with the key, and nothing if there is none.
pub proof fn lemma_lookup_first<V>(e: Seq<(Seq<char>, V)>, k: Seq<char>)
    ensures
        lookup_first(e, k) is None <==> forall|j: int| 0 <= j < e.len() ==> e[j].0 != k,
        forall|i: int|
            0 <= i < e.len() && e[i].0 == k && (forall|j: int| 0 <= j < i ==> e[j].0 != k)
                ==> lookup_first(e, k) == Some(e[i].1),
    decreases e.len(),
{
    if e.len() > 0 {
        lemma_lookup_first(e.drop_first(), k);
        assert forall|j: int| 0 < j < e.len() implies e[j] == e.drop_first()[j - 1] by {}
        if e[0].0 != k {
            assert forall|i: int|
                0 <= i < e.len() && e[i].0 == k && (forall|j: int| 0 <= j < i ==> e[j].0 != k)
                    implies lookup_first(e, k) == Some(e[i].1) by {
                assert(i > 0);
                assert(e.drop_first()[i - 1] == e[i]);
                assert forall|j: int| 0 <= j < i - 1 implies e.drop_first()[j].0 != k by {
                    assert(e.drop_first()[j] == e[j + 1]);
                }
            }
        }
    }
}

} // verus!

verus! {

/// Splitting at a separator preceded by none yields the parts before and after it.
pub proof fn lemma_split_once_at(a: Seq<char>, c: char, b: Seq<char>)
    requires
        !a.contains(c),
    ensures
        split_once(a + seq![c] + b, c) == Some((a, b)),
{
    let s = a + seq![c] + b;
    assert forall|j: int| 0 <= j < a.len() implies s[j] != c by {
        assert(s[j] == a[j]);
    }
    assert(s[a.len() as int] == c);
    lemma_find_char_at(s, c, a.len() as int);
    assert(s.take(a.len() as int) == a);
    assert(s.skip(a.len() + 1 as int) == b);
}

/// A string without the separator does not split.
pub proof fn lemma_split_once_none(a: Seq<char>, c: char)
    requires
        !a.contains(c),
    ensures
        split_once(a, c) is None,
{
    lemma_find_char(a, c);
}

/// A concatenation contains a character only if one of its parts does.
pub proof fn lemma_concat_contains(a: Seq<char>, b: Seq<char>, c: char)
    ensures
        (a + b).contains(c) <==> a.contains(c) || b.contains(c),
{
    if (a + b).contains(c) {
        let k = choose|k: int| 0 <= k < (a + b).len() && (a + b)[k] == c;
        if k < a.len() {
            assert(a[k] == c);
        } else {
            assert(b[k - a.len()] == c);
        }
    }
    if a.contains(c) {
        let k = choose|k: int| 0 <= k < a.len() && a[k] == c;
        assert((a + b)[k] == c);
    }
    if b.contains(c) {
        let k = choose|k: int| 0 <= k < b.len() && b[k] == c;
        assert((a + b)[k + a.len()] == c);
    }
}

/// A joined string contains a character only if a piece or the separator does.
pub proof fn lemma_join_contains(parts: Seq<Seq<char>>, sep: Seq<char>, c: char)
    requires
        forall|i: int| 0 <= i < parts.len() ==> !(#[trigger] parts[i]).contains(c),
        !sep.contains(c),
    ensures
        !join(parts, sep).contains(c),
    decreases parts.len(),
{
    if parts.len() > 1 {
        let rest = parts.drop_first();
        assert forall|i: int| 0 <= i < rest.len() implies !(#[trigger] rest[i]).contains(c) by {
            assert(rest[i] == parts[i + 1]);
        }
        lemma_join_contains(rest, sep, c);
        assert(!parts[0].contains(c));
        lemma_concat_contains(parts[0], sep, c);
        lemma_concat_contains(parts[0] + sep, join(rest, sep), c);
    } else if parts.len() == 1 {
        assert(!parts[0].contains(c));
    }
}

/// A prefix is stripped from a string that starts with it.
pub proof fn lemma_strip_prefix_concat(p: Seq<char>, u: Seq<char>)
    ensures
        strip_prefix(p + u, p) == Some(u),
{
    assert((p + u).take(p.len() as int) == p);
    assert((p + u).skip(p.len() as int) == u);
}

/// A string that differs from `p` at a position within both does not start with `p`.
pub proof fn lemma_not_starts_with(s: Seq<char>, p: Seq<char>, i: int)
    requires
        0 <= i < p.len(),
        i < s.len(),
        s[i] != p[i],
    ensures
        !starts_with(s, p),
        strip_prefix(s, p) is None,
{
    if starts_with(s, p) {
        assert(s.take(p.len() as int)[i] == s[i]);
    }
}

} // verus!
