//! Verified helpers over character sequences: splitting on a separator,
//! prefix tests, case mapping for ASCII identifiers and name normalization.

use vstd::prelude::*;

verus! {

/// Splitting a text on a separator, defined by recursion on the text.
/// An empty text yields one empty piece, matching the usual `split`.
pub open spec fn spec_split(s: Seq<char>, sep: char) -> Seq<Seq<char>>
    decreases s.len(),
{
    if s.len() == 0 {
        seq![Seq::<char>::empty()]
    } else if s[0] == sep {
        seq![Seq::<char>::empty()] + spec_split(s.skip(1), sep)
    } else {
        let rest = spec_split(s.skip(1), sep);
        seq![seq![s[0]] + rest[0]] + rest.skip(1)
    }
}

/// Splitting always yields at least one piece.
pub proof fn lemma_split_len(s: Seq<char>, sep: char)
    ensures
        spec_split(s, sep).len() >= 1,
    decreases s.len(),
{
    if s.len() != 0 && s[0] != sep {
        lemma_split_len(s.skip(1), sep);
    }
}

/// Glues the first piece of `rest` onto `piece`; the shape of every partial
/// state of an exec split loop.
pub open spec fn prepend_first(piece: Seq<char>, rest: Seq<Seq<char>>) -> Seq<Seq<char>> {
    seq![piece + rest[0]] + rest.skip(1)
}

proof fn lemma_split_step_sep(s: Seq<char>, sep: char, start: int, i: int)
    requires
        0 <= start <= i < s.len(),
        s[i] == sep,
    ensures
        prepend_first(s.subrange(start, i), spec_split(s.skip(i), sep)) == seq![
            s.subrange(start, i),
        ] + spec_split(s.skip(i + 1), sep),
{
    lemma_split_len(s.skip(i + 1), sep);
    assert(s.skip(i)[0] == sep);
    assert(s.skip(i).len() != 0);
    assert(s.skip(i).skip(1) =~= s.skip(i + 1));
    assert(spec_split(s.skip(i), sep) == seq![Seq::<char>::empty()] + spec_split(
        s.skip(i + 1),
        sep,
    ));
    assert(s.subrange(start, i) + Seq::<char>::empty() =~= s.subrange(start, i));
    assert(prepend_first(s.subrange(start, i), spec_split(s.skip(i), sep)) =~= seq![
        s.subrange(start, i),
    ] + spec_split(s.skip(i + 1), sep));
}

proof fn lemma_split_step_nonsep(s: Seq<char>, sep: char, start: int, i: int)
    requires
        0 <= start <= i < s.len(),
        s[i] != sep,
    ensures
        prepend_first(s.subrange(start, i), spec_split(s.skip(i), sep)) == prepend_first(
            s.subrange(start, i + 1),
            spec_split(s.skip(i + 1), sep),
        ),
{
    lemma_split_len(s.skip(i + 1), sep);
    assert(s.skip(i)[0] == s[i]);
    assert(s.skip(i).len() != 0);
    assert(s.skip(i).skip(1) =~= s.skip(i + 1));
    let rest = spec_split(s.skip(i + 1), sep);
    assert(spec_split(s.skip(i), sep) == seq![seq![s[i]] + rest[0]] + rest.skip(1));
    assert(s.subrange(start, i) + (seq![s[i]] + rest[0]) =~= s.subrange(start, i + 1) + rest[0]);
    assert((seq![seq![s[i]] + rest[0]] + rest.skip(1)).skip(1) =~= rest.skip(1));
    assert(prepend_first(s.subrange(start, i), spec_split(s.skip(i), sep)) =~= prepend_first(
        s.subrange(start, i + 1),
        rest,
    ));
}

/// Splits `s` at every occurrence of `sep`; an empty input yields one empty
/// piece, exactly as `spec_split` says.
pub fn split_char(s: &str, sep: char) -> (r: Vec<String>)
    ensures
        r@.map_values(|p: String| p@) == spec_split(s@, sep),
{
    let n: usize = s.unicode_len();
    let mut done: Vec<String> = Vec::new();
    let mut start: usize = 0;
    let mut i: usize = 0;
    proof {
        assert(s@.skip(0) =~= s@);
    }
    while i < n
        invariant
            0 <= start <= i <= n,
            n == s@.len(),
            spec_split(s@, sep) == done@.map_values(|p: String| p@) + prepend_first(
                s@.subrange(start as int, i as int),
                spec_split(s@.skip(i as int), sep),
            ),
        decreases n - i,
    {
        let c = s.get_char(i);
        if c == sep {
            let piece = s.substring_char(start, i);
            proof {
                lemma_split_step_sep(s@, sep, start as int, i as int);
            }
            done.push(String::from_str(piece));
            proof {
                assert(done@.map_values(|p: String| p@) =~= done@.drop_last().map_values(
                    |p: String| p@,
                ).push(s@.subrange(start as int, i as int)));
                assert(done@.drop_last().map_values(|p: String| p@).push(
                    s@.subrange(start as int, i as int),
                ) + prepend_first(
                    s@.subrange(i + 1 as int, i + 1 as int),
                    spec_split(s@.skip(i + 1 as int), sep),
                ) =~= done@.drop_last().map_values(|p: String| p@) + (seq![
                    s@.subrange(start as int, i as int),
                ] + spec_split(s@.skip(i + 1 as int), sep)));
                assert(s@.subrange(i + 1 as int, i + 1 as int) =~= Seq::<char>::empty());
                lemma_split_len(s@.skip(i + 1 as int), sep);
                assert(Seq::<char>::empty() + spec_split(s@.skip(i + 1 as int), sep)[0] =~= spec_split(
                    s@.skip(i + 1 as int),
                    sep,
                )[0]);
                assert(prepend_first(
                    Seq::<char>::empty(),
                    spec_split(s@.skip(i + 1 as int), sep),
                ) =~= spec_split(s@.skip(i + 1 as int), sep));
            }
            start = i + 1;
        } else {
            proof {
                lemma_split_step_nonsep(s@, sep, start as int, i as int);
            }
        }
        i = i + 1;
    }
    let piece = s.substring_char(start, n);
    done.push(String::from_str(piece));
    proof {
        assert(s@.skip(n as int) =~= Seq::<char>::empty());
        assert(spec_split(s@.skip(n as int), sep) == seq![Seq::<char>::empty()]);
        assert(s@.subrange(start as int, n as int) + Seq::<char>::empty() =~= s@.subrange(
            start as int,
            n as int,
        ));
        assert(prepend_first(
            s@.subrange(start as int, n as int),
            spec_split(s@.skip(n as int), sep),
        ) =~= seq![s@.subrange(start as int, n as int)]);
        assert(done@.map_values(|p: String| p@) =~= done@.drop_last().map_values(|p: String| p@)
            + seq![s@.subrange(start as int, n as int)]);
    }
    done
}

/// True when `s` begins with `prefix`.
pub open spec fn spec_starts_with(s: Seq<char>, prefix: Seq<char>) -> bool {
    prefix.len() <= s.len() && s.take(prefix.len() as int) == prefix
}

/// Prefix test over character sequences.
pub fn starts_with(s: &str, prefix: &str) -> (r: bool)
    ensures
        r == spec_starts_with(s@, prefix@),
{
    let n: usize = s.unicode_len();
    let m: usize = prefix.unicode_len();
    if m > n {
        proof {
            assert(!spec_starts_with(s@, prefix@));
        }
        return false;
    }
    let mut i: usize = 0;
    while i < m
        invariant
            0 <= i <= m <= n,
            n == s@.len(),
            m == prefix@.len(),
            forall|j: int| 0 <= j < i ==> s@[j] == prefix@[j],
        decreases m - i,
    {
        if s.get_char(i) != prefix.get_char(i) {
            proof {
                assert(s@.take(m as int)[i as int] != prefix@[i as int]);
            }
            return false;
        }
        i = i + 1;
    }
    proof {
        assert(s@.take(m as int) =~= prefix@);
    }
    true
}

/// Equality of two texts by their characters.
pub fn str_eq(a: &str, b: &str) -> (r: bool)
    ensures
        r == (a@ == b@),
{
    let sa = String::from_str(a);
    let sb = String::from_str(b);
    sa == sb
}

/// Replaces every `-` by `_`.
pub open spec fn spec_normalize_name(name: Seq<char>) -> Seq<char> {
    name.map_values(|c: char| if c == '-' { '_' } else { c })
}

/// Normalizes a module or dependency name: exported identifiers cannot hold
/// hyphens, so every `-` becomes `_`.
pub fn normalize_name(name: &str) -> (r: String)
    ensures
        r@ == spec_normalize_name(name@),
{
    let n: usize = name.unicode_len();
    let mut out = String::new();
    let mut i: usize = 0;
    while i < n
        invariant
            0 <= i <= n,
            n == name@.len(),
            out@ == spec_normalize_name(name@.take(i as int)),
        decreases n - i,
    {
        let c = name.get_char(i);
        if c == '-' {
            out.append("_");
            proof {
                reveal_strlit("_");
            }
        } else {
            let piece = name.substring_char(i, i + 1);
            out.append(piece);
            proof {
                assert(piece@ =~= seq![name@[i as int]]);
            }
        }
        proof {
            assert(spec_normalize_name(name@.take(i + 1 as int)) =~= spec_normalize_name(
                name@.take(i as int),
            ) + seq![if name@[i as int] == '-' {
                '_'
            } else {
                name@[i as int]
            }]);
        }
        i = i + 1;
    }
    proof {
        assert(name@.take(n as int) =~= name@);
    }
    out
}

/// Upper-case image of one character, for the 26 ASCII letters; anything else
/// is returned unchanged.
pub open spec fn spec_upper_char(c: char) -> char {
    match c {
        'a' => 'A',
        'b' => 'B',
        'c' => 'C',
        'd' => 'D',
        'e' => 'E',
        'f' => 'F',
        'g' => 'G',
        'h' => 'H',
        'i' => 'I',
        'j' => 'J',
        'k' => 'K',
        'l' => 'L',
        'm' => 'M',
        'n' => 'N',
        'o' => 'O',
        'p' => 'P',
        'q' => 'Q',
        'r' => 'R',
        's' => 'S',
        't' => 'T',
        'u' => 'U',
        'v' => 'V',
        'w' => 'W',
        'x' => 'X',
        'y' => 'Y',
        'z' => 'Z',
        _ => c,
    }
}

/// Upper-case image of a whole text, ASCII letters only.
pub open spec fn spec_upper(s: Seq<char>) -> Seq<char> {
    s.map_values(|c: char| spec_upper_char(c))
}

fn upper_char(c: char) -> (r: char)
    ensures
        r == spec_upper_char(c),
{
    match c {
        'a' => 'A',
        'b' => 'B',
        'c' => 'C',
        'd' => 'D',
        'e' => 'E',
        'f' => 'F',
        'g' => 'G',
        'h' => 'H',
        'i' => 'I',
        'j' => 'J',
        'k' => 'K',
        'l' => 'L',
        'm' => 'M',
        'n' => 'N',
        'o' => 'O',
        'p' => 'P',
        'q' => 'Q',
        'r' => 'R',
        's' => 'S',
        't' => 'T',
        'u' => 'U',
        'v' => 'V',
        'w' => 'W',
        'x' => 'X',
        'y' => 'Y',
        'z' => 'Z',
        _ => c,
    }
}

/// Relies on std's `String::push`: appends the given character at the end.
#[verifier::external_body]
pub(crate) fn push_char(s: &mut String, c: char)
    ensures
        final (s)@ == old(s)@.push(c),
{
    s.push(c)
}

/// ASCII upper-casing of a name, used to build exported descriptor symbol
/// names.
pub fn to_upper(s: &str) -> (r: String)
    ensures
        r@ == spec_upper(s@),
{
    let n: usize = s.unicode_len();
    let mut out = String::new();
    let mut i: usize = 0;
    while i < n
        invariant
            0 <= i <= n,
            n == s@.len(),
            out@ == spec_upper(s@.take(i as int)),
        decreases n - i,
    {
        let c = upper_char(s.get_char(i));
        push_char(&mut out, c);
        proof {
            assert(spec_upper(s@.take(i + 1 as int)) =~= spec_upper(s@.take(i as int)).push(
                spec_upper_char(s@[i as int]),
            ));
        }
        i = i + 1;
    }
    proof {
        assert(s@.take(n as int) =~= s@);
    }
    out
}

/// First position of `c` in `s`, if any.
pub open spec fn spec_find(s: Seq<char>, c: char) -> Option<int>
    decreases s.len(),
{
    if s.len() == 0 {
        None
    } else if s[0] == c {
        Some(0int)
    } else {
        match spec_find(s.skip(1), c) {
            Some(i) => Some(i + 1),
            None => None,
        }
    }
}

/// What `spec_find` returns, said without recursion: the first index holding
/// `c`, or nothing when `c` does not occur.
pub proof fn lemma_spec_find(s: Seq<char>, c: char)
    ensures
        match spec_find(s, c) {
            Some(i) => 0 <= i < s.len() && s[i] == c && forall|j: int| 0 <= j < i ==> s[j] != c,
            None => forall|j: int| 0 <= j < s.len() ==> s[j] != c,
        },
    decreases s.len(),
{
    if s.len() != 0 && s[0] != c {
        lemma_spec_find(s.skip(1), c);
        let rest = s.skip(1);
        match spec_find(rest, c) {
            Some(i) => {
                assert(s[i + 1] == rest[i]);
                assert forall|j: int| 0 <= j < i + 1 implies s[j] != c by {
                    if j > 0 {
                        assert(s[j] == rest[j - 1]);
                    }
                }
            },
            None => {
                assert forall|j: int| 0 <= j < s.len() implies s[j] != c by {
                    if j > 0 {
                        assert(s[j] == rest[j - 1]);
                    }
                }
            },
        }
    }
}

/// First position of `c` in `s`, or `None` when it does not occur.
pub fn find_char(s: &str, c: char) -> (r: Option<usize>)
    ensures
        match r {
            Some(i) => spec_find(s@, c) == Some(i as int),
            None => spec_find(s@, c) == None::<int>,
        },
{
    proof {
        lemma_spec_find(s@, c);
    }
    let n: usize = s.unicode_len();
    let mut i: usize = 0;
    while i < n
        invariant
            0 <= i <= n,
            n == s@.len(),
            forall|j: int| 0 <= j < i ==> s@[j] != c,
        decreases n - i,
    {
        if s.get_char(i) == c {
            proof {
                lemma_spec_find(s@, c);
                if spec_find(s@, c) is None {
                    assert(false);
                }
                let k = spec_find(s@, c)->Some_0;
                assert(k == i as int);
            }
            return Some(i);
        }
        i = i + 1;
    }
    proof {
        lemma_spec_find(s@, c);
        if spec_find(s@, c) is Some {
            let k = spec_find(s@, c)->Some_0;
            assert(s@[k] == c);
            assert(false);
        }
    }
    None
}

} // verus!

verus! {

/// The last position of `c` in `s`, if any.
pub open spec fn spec_rfind(s: Seq<char>, c: char) -> Option<int>
    decreases s.len(),
{
    if s.len() == 0 {
        None
    } else if s.last() == c {
        Some(s.len() - 1)
    } else {
        spec_rfind(s.drop_last(), c)
    }
}

/// What `spec_rfind` returns, said without recursion: the last index
/// holding `c`, or nothing when `c` does not occur.
pub proof fn lemma_spec_rfind(s: Seq<char>, c: char)
    ensures
        match spec_rfind(s, c) {
            Some(i) => 0 <= i < s.len() && s[i] == c && forall|j: int|
                i < j < s.len() ==> s[j] != c,
            None => forall|j: int| 0 <= j < s.len() ==> s[j] != c,
        },
    decreases s.len(),
{
    if s.len() != 0 && s.last() != c {
        lemma_spec_rfind(s.drop_last(), c);
        let rest = s.drop_last();
        match spec_rfind(rest, c) {
            Some(i) => {
                assert(s[i] == rest[i]);
                assert forall|j: int| i < j < s.len() implies s[j] != c by {
                    if j < s.len() - 1 {
                        assert(s[j] == rest[j]);
                    }
                }
            },
            None => {
                assert forall|j: int| 0 <= j < s.len() implies s[j] != c by {
                    if j < s.len() - 1 {
                        assert(s[j] == rest[j]);
                    }
                }
            },
        }
    }
}

} // verus!
