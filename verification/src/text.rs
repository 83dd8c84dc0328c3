//! Text helpers shared by the other modules: decimal rendering, splitting on a
//! delimiter, searching for a pattern and lexical comparison.

use vstd::prelude::*;
use vstd::string::*;

verus! {

/// The views of a sequence of strings.
pub open spec fn texts(v: Seq<String>) -> Seq<Seq<char>> {
    Seq::new(v.len(), |i: int| v[i]@)
}

/// The character that stands for the digit `d`.
pub open spec fn digit_char(d: nat) -> char {
    if d == 0 {
        '0'
    } else if d == 1 {
        '1'
    } else if d == 2 {
        '2'
    } else if d == 3 {
        '3'
    } else if d == 4 {
        '4'
    } else if d == 5 {
        '5'
    } else if d == 6 {
        '6'
    } else if d == 7 {
        '7'
    } else if d == 8 {
        '8'
    } else {
        '9'
    }
}

/// The decimal numeral of `n`, without leading zeros.
pub open spec fn decimal(n: nat) -> Seq<char>
    decreases n,
{
    if n < 10 {
        seq![digit_char(n)]
    } else {
        decimal(n / 10).push(digit_char(n % 10))
    }
}

fn digit_str(d: u64) -> (s: &'static str)
    requires
        d < 10,
    ensures
        s@ == seq![digit_char(d as nat)],
{
    proof {
        reveal_strlit("0");
        reveal_strlit("1");
        reveal_strlit("2");
        reveal_strlit("3");
        reveal_strlit("4");
        reveal_strlit("5");
        reveal_strlit("6");
        reveal_strlit("7");
        reveal_strlit("8");
        reveal_strlit("9");
    }
    let s: &'static str = if d == 0 {
        "0"
    } else if d == 1 {
        "1"
    } else if d == 2 {
        "2"
    } else if d == 3 {
        "3"
    } else if d == 4 {
        "4"
    } else if d == 5 {
        "5"
    } else if d == 6 {
        "6"
    } else if d == 7 {
        "7"
    } else if d == 8 {
        "8"
    } else {
        "9"
    };
    assert(s@ =~= seq![digit_char(d as nat)]);
    s
}

/// Renders `n` as a decimal numeral.
pub fn decimal_string(n: u64) -> (s: String)
    ensures
        s@ == decimal(n as nat),
    decreases n,
{
    let d: &'static str = digit_str(n % 10);
    if n < 10 {
        String::from_str(d)
    } else {
        let mut s: String = decimal_string(n / 10);
        s.append(d);
        assert(s@ =~= decimal(n as nat));
        s
    }
}

/// The characters of `s`, one by one.
pub fn chars_of(s: &str) -> (v: Vec<char>)
    ensures
        v@ == s@,
{
    let n: usize = s.unicode_len();
    let mut v: Vec<char> = Vec::new();
    let mut i: usize = 0;
    while i < n
        invariant
            n == s@.len(),
            i <= n,
            v@ == s@.take(i as int),
        decreases n - i,
    {
        v.push(s.get_char(i));
        assert(v@ =~= s@.take(i + 1));
        i += 1;
    }
    assert(v@ =~= s@);
    v
}

/// What splitting `s` at every occurrence of `d` yields: the pieces between
/// the delimiters, in order. A text without the delimiter is one piece, and
/// the empty text is one empty piece.
pub open spec fn split_on(s: Seq<char>, d: char) -> Seq<Seq<char>>
    decreases s.len(),
{
    if s.len() == 0 {
        seq![Seq::<char>::empty()]
    } else {
        let before = split_on(s.drop_last(), d);
        if s.last() == d {
            before.push(Seq::<char>::empty())
        } else {
            before.drop_last().push(before.last().push(s.last()))
        }
    }
}

/// Splitting always yields at least one piece.
pub proof fn lemma_split_on_nonempty(s: Seq<char>, d: char)
    ensures
        split_on(s, d).len() >= 1,
    decreases s.len(),
{
    if s.len() > 0 {
        lemma_split_on_nonempty(s.drop_last(), d);
    }
}

/// The pieces put together again, with `d` between each two.
pub open spec fn join_with(pieces: Seq<Seq<char>>, d: char) -> Seq<char>
    decreases pieces.len(),
{
    if pieces.len() == 0 {
        Seq::<char>::empty()
    } else if pieces.len() == 1 {
        pieces[0]
    } else {
        join_with(pieces.drop_last(), d).push(d) + pieces.last()
    }
}

/// Splitting loses nothing and leaves no delimiter behind: the pieces of a
/// text, joined with the delimiter, are the text, and no piece holds the
/// delimiter.
pub proof fn lemma_split_then_join(s: Seq<char>, d: char)
    ensures
        join_with(split_on(s, d), d) == s,
        forall|i: int, k: int|
            0 <= i < split_on(s, d).len() && 0 <= k < split_on(s, d)[i].len() ==> split_on(
                s,
                d,
            )[i][k] != d,
    decreases s.len(),
{
    let pieces = split_on(s, d);
    if s.len() == 0 {
        assert(join_with(pieces, d) =~= s);
    } else {
        let before = split_on(s.drop_last(), d);
        lemma_split_then_join(s.drop_last(), d);
        lemma_split_on_nonempty(s.drop_last(), d);
        assert(s =~= s.drop_last().push(s.last()));
        if s.last() == d {
            assert(pieces.drop_last() =~= before);
            assert(join_with(pieces, d) =~= join_with(before, d).push(d));
        } else {
            let grown = before.last().push(s.last());
            assert(pieces.last() == grown);
            assert(pieces.drop_last() =~= before.drop_last());
            if before.len() == 1 {
                assert(join_with(pieces, d) =~= join_with(before, d).push(s.last()));
            } else {
                assert(join_with(pieces, d) =~= (join_with(before.drop_last(), d).push(d)
                    + before.last()).push(s.last()));
            }
            assert forall|i: int, k: int|
                0 <= i < pieces.len() && 0 <= k < pieces[i].len() implies pieces[i][k] != d by {
                if i < pieces.len() - 1 {
                    assert(pieces[i] == before[i]);
                } else if k < before.last().len() {
                    assert(pieces[i][k] == before[i][k]);
                }
            }
        }
    }
}

/// Splits `s` at every occurrence of `d`.
pub fn split(s: &str, d: char) -> (parts: Vec<String>)
    ensures
        texts(parts@) == split_on(s@, d),
{
    let cs: Vec<char> = chars_of(s);
    let n: usize = cs.len();
    let mut parts: Vec<String> = Vec::new();
    let mut start: usize = 0;
    let mut i: usize = 0;
    proof {
        assert(s@.take(0) =~= Seq::<char>::empty());
        assert(texts(parts@).push(s@.subrange(0, 0)) =~= split_on(s@.take(0), d));
    }
    while i < n
        invariant
            cs@ == s@,
            n == cs@.len(),
            start <= i <= n,
            split_on(s@.take(i as int), d) == texts(parts@).push(
                s@.subrange(start as int, i as int),
            ),
        decreases n - i,
    {
        let ghost prev = texts(parts@);
        proof {
            assert(s@.take(i + 1).drop_last() =~= s@.take(i as int));
            assert(s@.take(i + 1).last() == s@[i as int]);
        }
        if cs[i] == d {
            let ghost piece_view = s@.subrange(start as int, i as int);
            let piece: String = String::from_str(s.substring_char(start, i));
            parts.push(piece);
            proof {
                assert(texts(parts@) =~= prev.push(piece_view));
                assert(s@.subrange(i + 1, i + 1) =~= Seq::<char>::empty());
            }
            start = i + 1;
        } else {
            proof {
                let before = prev.push(s@.subrange(start as int, i as int));
                assert(before.drop_last() =~= prev);
                assert(before.last().push(s@[i as int]) =~= s@.subrange(start as int, i + 1));
            }
        }
        i += 1;
    }
    let ghost prev = texts(parts@);
    parts.push(String::from_str(s.substring_char(start, n)));
    proof {
        assert(s@.take(n as int) =~= s@);
        assert(texts(parts@) =~= prev.push(s@.subrange(start as int, n as int)));
    }
    parts
}

/// `x` occurs in `s`, and `i` is the first place where it does.
pub open spec fn is_first_at(s: Seq<Seq<char>>, x: Seq<char>, i: int) -> bool {
    &&& 0 <= i < s.len()
    &&& s[i] == x
    &&& forall|j: int| 0 <= j < i ==> #[trigger] s[j] != x
}

/// Whether `x` occurs in `s`.
pub open spec fn occurs(s: Seq<Seq<char>>, x: Seq<char>) -> bool {
    exists|i: int| is_first_at(s, x, i)
}

/// The first place at which `x` occurs in `s`, where it occurs.
pub open spec fn first_at(s: Seq<Seq<char>>, x: Seq<char>) -> int {
    choose|i: int| is_first_at(s, x, i)
}

/// Finds the first string of `v` that reads `x`.
pub fn find_text(v: &Vec<String>, x: &str) -> (found: Option<usize>)
    ensures
        match found {
            Some(i) => is_first_at(texts(v@), x@, i as int) && first_at(texts(v@), x@) == i,
            None => !occurs(texts(v@), x@) && forall|j: int|
                0 <= j < v@.len() ==> (#[trigger] v@[j])@ != x@,
        },
{
    let wanted: String = String::from_str(x);
    let mut i: usize = 0;
    while i < v.len()
        invariant
            i <= v@.len(),
            wanted@ == x@,
            forall|j: int| 0 <= j < i ==> #[trigger] texts(v@)[j] != x@,
        decreases v@.len() - i,
    {
        if v[i] == wanted {
            assert(is_first_at(texts(v@), x@, i as int));
            return Some(i);
        }
        i += 1;
    }
    assert forall|k: int| !is_first_at(texts(v@), x@, k) by {
        if 0 <= k < v@.len() {
            assert(texts(v@)[k] != x@);
        }
    }
    assert forall|j: int| 0 <= j < v@.len() implies (#[trigger] v@[j])@ != x@ by {
        assert(texts(v@)[j] != x@);
    }
    None
}

/// The lexical order of texts: by the first character in which they differ,
/// and a proper prefix before the longer text.
pub open spec fn lex_lt(a: Seq<char>, b: Seq<char>) -> bool
    decreases a.len(),
{
    if b.len() == 0 {
        false
    } else if a.len() == 0 {
        true
    } else if a[0] != b[0] {
        (a[0] as int) < (b[0] as int)
    } else {
        lex_lt(a.skip(1), b.skip(1))
    }
}

/// No text comes before itself.
pub proof fn lemma_lex_irreflexive(a: Seq<char>)
    ensures
        !lex_lt(a, a),
    decreases a.len(),
{
    if a.len() > 0 {
        lemma_lex_irreflexive(a.skip(1));
    }
}

/// The lexical order is transitive.
pub proof fn lemma_lex_transitive(a: Seq<char>, b: Seq<char>, c: Seq<char>)
    requires
        lex_lt(a, b),
        lex_lt(b, c),
    ensures
        lex_lt(a, c),
    decreases a.len(),
{
    if a.len() > 0 && b.len() > 0 && c.len() > 0 {
        if a[0] == b[0] && b[0] == c[0] {
            lemma_lex_transitive(a.skip(1), b.skip(1), c.skip(1));
        }
    }
}

/// Of two different texts one comes before the other.
pub proof fn lemma_lex_total(a: Seq<char>, b: Seq<char>)
    requires
        a != b,
        !lex_lt(a, b),
    ensures
        lex_lt(b, a),
    decreases a.len(),
{
    if a.len() > 0 && b.len() > 0 {
        if a[0] == b[0] {
            if a.skip(1) == b.skip(1) {
                assert(a =~= seq![a[0]] + a.skip(1));
                assert(b =~= seq![b[0]] + b.skip(1));
                assert(a =~= b);
            } else {
                lemma_lex_total(a.skip(1), b.skip(1));
            }
        }
    } else if a.len() == 0 && b.len() == 0 {
        assert(a =~= b);
    }
}

/// Whether `a` comes before `b` in lexical order.
pub fn text_lt(a: &str, b: &str) -> (before: bool)
    ensures
        before == lex_lt(a@, b@),
{
    let ca: Vec<char> = chars_of(a);
    let cb: Vec<char> = chars_of(b);
    let mut i: usize = 0;
    proof {
        assert(a@.skip(0) =~= a@);
        assert(b@.skip(0) =~= b@);
    }
    while i < ca.len() && i < cb.len()
        invariant
            ca@ == a@,
            cb@ == b@,
            i <= ca@.len(),
            i <= cb@.len(),
            lex_lt(a@, b@) == lex_lt(a@.skip(i as int), b@.skip(i as int)),
        decreases ca@.len() - i,
    {
        proof {
            assert(a@.skip(i as int).skip(1) =~= a@.skip(i + 1));
            assert(b@.skip(i as int).skip(1) =~= b@.skip(i + 1));
            assert(a@.skip(i as int)[0] == a@[i as int]);
            assert(b@.skip(i as int)[0] == b@[i as int]);
        }
        if ca[i] != cb[i] {
            return ca[i] < cb[i];
        }
        i += 1;
    }
    i < cb.len()
}

/// `i` is the place of the last dot of `name`.
pub open spec fn is_last_dot(name: Seq<char>, i: int) -> bool {
    &&& 0 <= i < name.len()
    &&& name[i] == '.'
    &&& forall|j: int| i < j < name.len() ==> name[j] != '.'
}

/// The stem of a file name: what stands in front of its last dot. A name
/// without a dot, or with its only dot in front, is its own stem.
pub open spec fn stem_of(name: Seq<char>) -> Seq<char> {
    if exists|i: int| 0 < i && is_last_dot(name, i) {
        name.take(choose|i: int| 0 < i && is_last_dot(name, i))
    } else {
        name
    }
}

/// The stem of a file name.
pub fn file_stem(name: &str) -> (stem: String)
    ensures
        stem@ == stem_of(name@),
{
    let cs: Vec<char> = chars_of(name);
    let mut i: usize = cs.len();
    while i > 1
        invariant
            cs@ == name@,
            i <= cs@.len(),
            forall|j: int| i <= j < cs@.len() ==> cs@[j] != '.',
        decreases i,
    {
        i -= 1;
        if cs[i] == '.' {
            proof {
                assert(is_last_dot(name@, i as int));
                let c = choose|c: int| 0 < c && is_last_dot(name@, c);
                assert(c == i);
            }
            return String::from_str(name.substring_char(0, i));
        }
    }
    proof {
        assert forall|k: int| !(0 < k && is_last_dot(name@, k)) by {}
    }
    String::from_str(name)
}

} // verus!
