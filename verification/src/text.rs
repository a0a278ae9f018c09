//! Text handling for kernel pseudo-files.
//!
//! Every file this daemon reads is line-oriented ASCII text. The functions here
//! work on sequences of characters and say exactly which pieces they return.
//! White space is the six ASCII white-space characters; a line ends at a line
//! feed, and a carriage return before it stays in the line (every reader of
//! lines strips white space itself).

use vstd::prelude::*;

verus! {

/// The ASCII white-space characters.
pub open spec fn is_space(c: char) -> bool {
    c == ' ' || c == '\t' || c == '\n' || c == '\r' || c == '\x0b' || c == '\x0c'
}

/// Length of the longest prefix of `s` without white space.
pub open spec fn word_len(s: Seq<char>) -> nat
    decreases s.len(),
{
    if s.len() == 0 || is_space(s[0]) {
        0
    } else {
        1 + word_len(s.skip(1))
    }
}

/// The maximal runs of non-white-space characters of `s`, in order.
pub open spec fn words(s: Seq<char>) -> Seq<Seq<char>>
    decreases s.len(),
{
    if s.len() == 0 {
        Seq::empty()
    } else if is_space(s[0]) {
        words(s.skip(1))
    } else {
        let n = word_len(s) as int;
        if 0 < n <= s.len() {
            seq![s.take(n)] + words(s.skip(n))
        } else {
            Seq::empty()
        }
    }
}

/// Index of the first `c` in `s`, or `s.len()` where there is none.
pub open spec fn first_index(s: Seq<char>, c: char) -> nat
    decreases s.len(),
{
    if s.len() == 0 || s[0] == c {
        0
    } else {
        1 + first_index(s.skip(1), c)
    }
}

/// The pieces of `s` between occurrences of `sep`; always at least one piece.
pub open spec fn split_on(s: Seq<char>, sep: char) -> Seq<Seq<char>>
    decreases s.len(),
{
    let i = first_index(s, sep) as int;
    if 0 <= i < s.len() {
        seq![s.take(i)] + split_on(s.skip(i + 1), sep)
    } else {
        seq![s]
    }
}

/// The lines of `s`: the pieces between line feeds, without a last empty piece.
pub open spec fn lines(s: Seq<char>) -> Seq<Seq<char>>
    decreases s.len(),
{
    if s.len() == 0 {
        Seq::empty()
    } else {
        let i = first_index(s, '\n') as int;
        if 0 <= i < s.len() {
            seq![s.take(i)] + lines(s.skip(i + 1))
        } else {
            seq![s]
        }
    }
}

/// `s` without its leading white space.
pub open spec fn trim_start(s: Seq<char>) -> Seq<char>
    decreases s.len(),
{
    if s.len() > 0 && is_space(s[0]) {
        trim_start(s.skip(1))
    } else {
        s
    }
}

/// `s` without its trailing white space.
pub open spec fn trim_end(s: Seq<char>) -> Seq<char>
    decreases s.len(),
{
    if s.len() > 0 && is_space(s.last()) {
        trim_end(s.drop_last())
    } else {
        s
    }
}

/// `s` without leading and trailing white space.
pub open spec fn trim(s: Seq<char>) -> Seq<char> {
    trim_end(trim_start(s))
}

/// The texts that a list of character vectors holds.
pub open spec fn texts(v: Seq<Vec<char>>) -> Seq<Seq<char>> {
    Seq::new(v.len(), |i: int| v[i]@)
}

/// `s` begins with `prefix`.
pub open spec fn starts_with(s: Seq<char>, prefix: Seq<char>) -> bool {
    prefix.len() <= s.len() && s.take(prefix.len() as int) == prefix
}

/// `needle` occurs in `hay` at index `i`.
pub open spec fn occurs_at(hay: Seq<char>, needle: Seq<char>, i: int) -> bool {
    0 <= i && i + needle.len() <= hay.len() && hay.subrange(i, i + needle.len()) == needle
}

/// `needle` occurs somewhere in `hay`. The empty needle occurs in every text.
pub open spec fn contains(hay: Seq<char>, needle: Seq<char>) -> bool {
    exists|i: int| occurs_at(hay, needle, i)
}

/// `w` is not empty and holds no white space.
pub open spec fn space_free(w: Seq<char>) -> bool {
    w.len() > 0 && forall|k: int| 0 <= k < w.len() ==> !is_space(#[trigger] w[k])
}

/// The words of `ws` with one space between neighbours.
pub open spec fn join_words(ws: Seq<Seq<char>>) -> Seq<char>
    decreases ws.len(),
{
    if ws.len() == 0 {
        Seq::empty()
    } else if ws.len() == 1 {
        ws[0]
    } else {
        ws[0] + seq![' '] + join_words(ws.skip(1))
    }
}

/// Splitting what was joined gives the words again.
pub proof fn lemma_words_of_join(ws: Seq<Seq<char>>)
    requires
        forall|i: int| 0 <= i < ws.len() ==> space_free(#[trigger] ws[i]),
    ensures
        words(join_words(ws)) == ws,
    decreases ws.len(),
{
    let s = join_words(ws);
    if ws.len() == 0 {
        assert(words(s) =~= ws);
    } else {
        let w = ws[0];
        let n = w.len() as int;
        assert(space_free(w));
        assert forall|k: int| 0 <= k < n implies !is_space(#[trigger] s[k]) by {
            assert(s[k] == w[k]);
        }
        lemma_word_len_is(s, n);
        assert(s.take(n) =~= w);
        if ws.len() == 1 {
            assert(s =~= w);
            assert(s.skip(n) =~= Seq::<char>::empty());
            assert(words(s.skip(n)) =~= Seq::<Seq<char>>::empty());
            assert(!is_space(s[0]));
            assert(words(s) == seq![s.take(n)] + words(s.skip(n)));
            assert(words(s) =~= ws);
        } else {
            let rest = ws.skip(1);
            assert forall|i: int| 0 <= i < rest.len() implies space_free(#[trigger] rest[i]) by {
                assert(rest[i] == ws[i + 1]);
            }
            lemma_words_of_join(rest);
            let tail = s.skip(n);
            assert(tail =~= seq![' '] + join_words(rest));
            assert(tail.skip(1) =~= join_words(rest));
            assert(is_space(tail[0]));
            assert(words(tail) == rest);
            assert(!is_space(s[0]));
            assert(words(s) == seq![s.take(n)] + words(s.skip(n)));
            assert(words(s) =~= ws);
        }
    }
}

/// A text of two parts around one `sep`, neither part holding `sep`, splits
/// into the two parts.
pub proof fn lemma_split_pair(key: Seq<char>, value: Seq<char>, sep: char)
    requires
        forall|k: int| 0 <= k < key.len() ==> #[trigger] key[k] != sep,
        forall|k: int| 0 <= k < value.len() ==> #[trigger] value[k] != sep,
    ensures
        split_on(key + seq![sep] + value, sep) == seq![key, value],
{
    let s = key + seq![sep] + value;
    let n = key.len() as int;
    assert forall|k: int| 0 <= k < n implies #[trigger] s[k] != sep by {
        assert(s[k] == key[k]);
    }
    lemma_first_index_is(s, sep, n);
    assert(s.take(n) =~= key);
    assert(s.skip(n + 1) =~= value);
    lemma_first_index_is(value, sep, value.len() as int);
    assert(split_on(value, sep) =~= seq![value]);
    assert(split_on(s, sep) =~= seq![key, value]);
}

/// No character before the first index of `c` is `c`, and the character
/// at it is, where there is one.
pub proof fn lemma_first_index(s: Seq<char>, c: char)
    ensures
        first_index(s, c) <= s.len(),
        forall|k: int| 0 <= k < first_index(s, c) ==> #[trigger] s[k] != c,
        first_index(s, c) < s.len() ==> s[first_index(s, c) as int] == c,
    decreases s.len(),
{
    if s.len() == 0 || s[0] == c {
    } else {
        lemma_first_index(s.skip(1), c);
        assert forall|k: int| 0 <= k < first_index(s, c) implies #[trigger] s[k] != c by {
            if k > 0 {
                assert(s[k] == s.skip(1)[k - 1]);
            }
        }
        if first_index(s, c) < s.len() {
            assert(s[first_index(s, c) as int] == s.skip(1)[first_index(s.skip(1), c) as int]);
        }
    }
}

/// Splitting two texts with a separator between them gives the pieces of
/// the first, then the pieces of the second.
pub proof fn lemma_split_around(a: Seq<char>, b: Seq<char>, sep: char)
    ensures
        split_on(a + seq![sep] + b, sep) == split_on(a, sep) + split_on(b, sep),
    decreases a.len(),
{
    let s = a + seq![sep] + b;
    let i = first_index(a, sep) as int;
    lemma_first_index(a, sep);
    assert forall|k: int| 0 <= k < i implies #[trigger] s[k] != sep by {
        assert(s[k] == a[k]);
    }
    if i < a.len() {
        assert(s[i] == a[i]);
        lemma_first_index_is(s, sep, i);
        let rest = a.skip(i + 1);
        lemma_split_around(rest, b, sep);
        assert(s.take(i) =~= a.take(i));
        assert(s.skip(i + 1) =~= rest + seq![sep] + b);
        assert(split_on(s, sep) =~= split_on(a, sep) + split_on(b, sep));
    } else {
        assert(s[i] == sep);
        lemma_first_index_is(s, sep, i);
        assert(s.take(i) =~= a);
        assert(s.skip(i + 1) =~= b);
        assert(split_on(a, sep) =~= seq![a]);
        assert(split_on(s, sep) =~= split_on(a, sep) + split_on(b, sep));
    }
}

/// No piece of a split holds the separator.
pub proof fn lemma_split_pieces(s: Seq<char>, sep: char)
    ensures
        split_on(s, sep).len() > 0,
        forall|i: int, k: int|
            0 <= i < split_on(s, sep).len() && 0 <= k < split_on(s, sep)[i].len() ==> split_on(
                s,
                sep,
            )[i][k] != sep,
    decreases s.len(),
{
    let n = first_index(s, sep) as int;
    lemma_first_index(s, sep);
    let all = split_on(s, sep);
    if n < s.len() {
        let rest = split_on(s.skip(n + 1), sep);
        lemma_split_pieces(s.skip(n + 1), sep);
        assert(all == seq![s.take(n)] + rest);
        assert forall|i: int, k: int| 0 <= i < all.len() && 0 <= k < all[i].len() implies all[i][k]
            != sep by {
            if i == 0 {
                assert(all[0] == s.take(n));
                assert(s.take(n)[k] == s[k]);
            } else {
                assert(all[i] == rest[i - 1]);
            }
        }
    } else {
        assert(all == seq![s]);
        assert forall|i: int, k: int| 0 <= i < all.len() && 0 <= k < all[i].len() implies all[i][k]
            != sep by {
            assert(all[0] == s);
        }
    }
}

/// Where no character before `n` is `c`, and the one at `n` is (or `s` ends
/// there), `n` is the first index of `c`.
pub proof fn lemma_first_index_is(s: Seq<char>, c: char, n: int)
    requires
        0 <= n <= s.len(),
        forall|k: int| 0 <= k < n ==> #[trigger] s[k] != c,
        n < s.len() ==> s[n] == c,
    ensures
        first_index(s, c) == n,
    decreases s.len(),
{
    if s.len() == 0 || s[0] == c {
        if n > 0 {
            assert(s[0] != c);
        }
    } else {
        assert forall|k: int| 0 <= k < n - 1 implies #[trigger] s.skip(1)[k] != c by {
            assert(s.skip(1)[k] == s[k + 1]);
        }
        lemma_first_index_is(s.skip(1), c, n - 1);
    }
}

/// Where no character before `n` is white space, and the one at `n` is (or `s`
/// ends there), the first word of `s` has length `n`.
pub proof fn lemma_word_len_is(s: Seq<char>, n: int)
    requires
        0 <= n <= s.len(),
        forall|k: int| 0 <= k < n ==> !is_space(#[trigger] s[k]),
        n < s.len() ==> is_space(s[n]),
    ensures
        word_len(s) == n,
    decreases s.len(),
{
    if s.len() == 0 || is_space(s[0]) {
        if n > 0 {
            assert(!is_space(s[0]));
        }
    } else {
        assert forall|k: int| 0 <= k < n - 1 implies !is_space(#[trigger] s.skip(1)[k]) by {
            assert(s.skip(1)[k] == s[k + 1]);
        }
        lemma_word_len_is(s.skip(1), n - 1);
    }
}

/// Whether `c` is white space.
pub fn is_space_char(c: char) -> (b: bool)
    ensures
        b == is_space(c),
{
    c == ' ' || c == '\t' || c == '\n' || c == '\r' || c == '\x0b' || c == '\x0c'
}

/// The characters of a string slice.
pub fn chars_of(s: &str) -> (v: Vec<char>)
    ensures
        v@ == s@,
{
    let mut v: Vec<char> = Vec::new();
    for c in it: s.chars()
        invariant
            it.seq() == s@,
            v@ == it.seq().take(it.index() as int),
    {
        v.push(c);
    }
    v
}

/// `String::push`: appends one character and changes nothing else.
#[verifier::external_body]
fn push_char(s: &mut String, c: char)
    ensures
        final(s)@ == old(s)@.push(c),
{
    s.push(c)
}

/// The string that holds the characters of `v`.
pub fn string_of(v: &Vec<char>) -> (s: String)
    ensures
        s@ == v@,
{
    let mut s = String::new();
    let mut i: usize = 0;
    while i < v.len()
        invariant
            i <= v.len(),
            s@ == v@.take(i as int),
        decreases v.len() - i,
    {
        push_char(&mut s, v[i]);
        assert(v@.take(i + 1) == v@.take(i as int).push(v@[i as int]));
        i += 1;
    }
    assert(v@.take(v.len() as int) == v@);
    s
}

/// The characters of `v` from `from` up to `to`.
pub fn slice_of(v: &Vec<char>, from: usize, to: usize) -> (r: Vec<char>)
    requires
        from <= to <= v.len(),
    ensures
        r@ == v@.subrange(from as int, to as int),
{
    let mut r: Vec<char> = Vec::new();
    let mut i: usize = from;
    while i < to
        invariant
            from <= i <= to <= v.len(),
            r@ == v@.subrange(from as int, i as int),
        decreases to - i,
    {
        r.push(v[i]);
        assert(v@.subrange(from as int, i + 1) == v@.subrange(from as int, i as int).push(
            v@[i as int],
        ));
        i += 1;
    }
    r
}

/// Whether two texts hold the same characters.
pub fn same_text(a: &Vec<char>, b: &Vec<char>) -> (r: bool)
    ensures
        r == (a@ == b@),
{
    if a.len() != b.len() {
        return false;
    }
    let mut i: usize = 0;
    while i < a.len()
        invariant
            i <= a.len(),
            a.len() == b.len(),
            a@.take(i as int) == b@.take(i as int),
        decreases a.len() - i,
    {
        if a[i] != b[i] {
            return false;
        }
        assert(a@.take(i + 1) == a@.take(i as int).push(a@[i as int]));
        assert(b@.take(i + 1) == b@.take(i as int).push(b@[i as int]));
        i += 1;
    }
    assert(a@.take(a.len() as int) == a@);
    assert(b@.take(b.len() as int) == b@);
    true
}

/// Whether `v` holds exactly the characters of `lit`.
pub fn is_word(v: &Vec<char>, lit: &str) -> (r: bool)
    ensures
        r == (v@ == lit@),
{
    let w = chars_of(lit);
    same_text(v, &w)
}

/// Appends one piece to a list of texts.
pub fn push_piece(r: &mut Vec<Vec<char>>, w: Vec<char>)
    ensures
        texts(final(r)@) == texts(old(r)@).push(w@),
{
    r.push(w);
    assert(texts(r@) =~= texts(old(r)@).push(w@));
}

/// Splits `s` at white space into its words.
pub fn split_words(s: &Vec<char>) -> (r: Vec<Vec<char>>)
    ensures
        texts(r@) == words(s@),
{
    let mut r: Vec<Vec<char>> = Vec::new();
    let mut i: usize = 0;
    proof {
        assert(s@.skip(0) == s@);
        assert(texts(r@) == Seq::<Seq<char>>::empty());
    }
    while i < s.len()
        invariant
            i <= s.len(),
            texts(r@) + words(s@.skip(i as int)) == words(s@),
        decreases s.len() - i,
    {
        let ghost rest = s@.skip(i as int);
        if is_space_char(s[i]) {
            assert(rest.skip(1) == s@.skip(i + 1));
            i += 1;
        } else {
            let start = i;
            let mut j: usize = i + 1;
            while j < s.len() && !is_space_char(s[j])
                invariant
                    start < j <= s.len(),
                    forall|k: int| start <= k < j ==> !is_space(#[trigger] s@[k]),
                decreases s.len() - j,
            {
                j += 1;
            }
            proof {
                lemma_word_len_is(rest, j - start);
                assert(rest.take(j - start) == s@.subrange(start as int, j as int));
                assert(rest.skip(j - start) == s@.skip(j as int));
            }
            let w = slice_of(s, start, j);
            let ghost before = texts(r@);
            push_piece(&mut r, w);
            proof {
                assert(texts(r@) == before.push(w@));
                assert(before.push(w@) + words(s@.skip(j as int)) == before + (seq![w@] + words(
                    s@.skip(j as int),
                )));
            }
            i = j;
        }
    }
    proof {
        assert(words(s@.skip(i as int)) == Seq::<Seq<char>>::empty());
        assert(texts(r@) + Seq::<Seq<char>>::empty() == texts(r@));
    }
    r
}

/// Splits `s` at every `sep`.
pub fn split_at_char(s: &Vec<char>, sep: char) -> (r: Vec<Vec<char>>)
    ensures
        texts(r@) == split_on(s@, sep),
{
    let mut r: Vec<Vec<char>> = Vec::new();
    let mut start: usize = 0;
    let mut j: usize = 0;
    proof {
        assert(s@.skip(0) == s@);
        assert(texts(r@) == Seq::<Seq<char>>::empty());
    }
    while j < s.len()
        invariant
            start <= j <= s.len(),
            texts(r@) + split_on(s@.skip(start as int), sep) == split_on(s@, sep),
            forall|k: int| start <= k < j ==> #[trigger] s@[k] != sep,
        decreases s.len() - j,
    {
        if s[j] == sep {
            let ghost rest = s@.skip(start as int);
            proof {
                lemma_first_index_is(rest, sep, j - start);
                assert(rest.take(j - start) == s@.subrange(start as int, j as int));
                assert(rest.skip(j - start + 1) == s@.skip(j + 1));
            }
            let w = slice_of(s, start, j);
            let ghost before = texts(r@);
            push_piece(&mut r, w);
            proof {
                assert(texts(r@) == before.push(w@));
                assert(before.push(w@) + split_on(s@.skip(j + 1), sep) == before + (seq![w@]
                    + split_on(s@.skip(j + 1), sep)));
            }
            start = j + 1;
        }
        j += 1;
    }
    let ghost rest = s@.skip(start as int);
    proof {
        lemma_first_index_is(rest, sep, s.len() - start);
        assert(rest == s@.subrange(start as int, s.len() as int));
    }
    let w = slice_of(s, start, s.len());
    let ghost before = texts(r@);
    push_piece(&mut r, w);
    proof {
        assert(texts(r@) == before.push(w@));
        assert(before.push(w@) == before + seq![w@]);
    }
    r
}

/// Splits `s` into its lines.
pub fn split_lines(s: &Vec<char>) -> (r: Vec<Vec<char>>)
    ensures
        texts(r@) == lines(s@),
{
    let mut r: Vec<Vec<char>> = Vec::new();
    let mut start: usize = 0;
    let mut j: usize = 0;
    proof {
        assert(s@.skip(0) == s@);
        assert(texts(r@) == Seq::<Seq<char>>::empty());
    }
    while j < s.len()
        invariant
            start <= j <= s.len(),
            texts(r@) + lines(s@.skip(start as int)) == lines(s@),
            forall|k: int| start <= k < j ==> #[trigger] s@[k] != '\n',
        decreases s.len() - j,
    {
        if s[j] == '\n' {
            let ghost rest = s@.skip(start as int);
            proof {
                lemma_first_index_is(rest, '\n', j - start);
                assert(rest.take(j - start) == s@.subrange(start as int, j as int));
                assert(rest.skip(j - start + 1) == s@.skip(j + 1));
            }
            let w = slice_of(s, start, j);
            let ghost before = texts(r@);
            push_piece(&mut r, w);
            proof {
                assert(texts(r@) == before.push(w@));
                assert(before.push(w@) + lines(s@.skip(j + 1)) == before + (seq![w@] + lines(
                    s@.skip(j + 1),
                )));
            }
            start = j + 1;
        }
        j += 1;
    }
    if start < s.len() {
        let ghost rest = s@.skip(start as int);
        proof {
            lemma_first_index_is(rest, '\n', s.len() - start);
            assert(rest == s@.subrange(start as int, s.len() as int));
        }
        let w = slice_of(s, start, s.len());
        let ghost before = texts(r@);
        push_piece(&mut r, w);
        proof {
            assert(texts(r@) == before.push(w@));
            assert(before.push(w@) == before + seq![w@]);
        }
    } else {
        proof {
            assert(lines(s@.skip(start as int)) == Seq::<Seq<char>>::empty());
            assert(texts(r@) + Seq::<Seq<char>>::empty() == texts(r@));
        }
    }
    r
}

/// Strips leading and trailing white space.
pub fn trimmed(s: &Vec<char>) -> (r: Vec<char>)
    ensures
        r@ == trim(s@),
{
    let mut a: usize = 0;
    proof {
        assert(s@.skip(0) == s@);
    }
    while a < s.len() && is_space_char(s[a])
        invariant
            a <= s.len(),
            trim_start(s@.skip(a as int)) == trim_start(s@),
        decreases s.len() - a,
    {
        assert(s@.skip(a as int).skip(1) == s@.skip(a + 1));
        a += 1;
    }
    let mut b: usize = s.len();
    proof {
        assert(s@.subrange(a as int, b as int) == s@.skip(a as int));
        assert(trim_start(s@.skip(a as int)) == s@.skip(a as int));
    }
    while b > a && is_space_char(s[b - 1])
        invariant
            a <= b <= s.len(),
            trim_end(s@.subrange(a as int, b as int)) == trim(s@),
        decreases b,
    {
        assert(s@.subrange(a as int, b as int).drop_last() == s@.subrange(a as int, b - 1));
        b -= 1;
    }
    slice_of(s, a, b)
}

/// Whether `s` begins with `prefix`.
pub fn has_prefix(s: &Vec<char>, prefix: &Vec<char>) -> (r: bool)
    ensures
        r == starts_with(s@, prefix@),
{
    if prefix.len() > s.len() {
        return false;
    }
    let head = slice_of(s, 0, prefix.len());
    assert(s@.subrange(0, prefix.len() as int) == s@.take(prefix.len() as int));
    same_text(&head, prefix)
}

/// Whether `needle` occurs in `hay`.
pub fn has_substring(hay: &Vec<char>, needle: &Vec<char>) -> (r: bool)
    ensures
        r == contains(hay@, needle@),
{
    if needle.len() == 0 {
        assert(hay@.subrange(0, 0) =~= needle@);
        assert(occurs_at(hay@, needle@, 0));
        return true;
    }
    if needle.len() > hay.len() {
        assert(forall|i: int| !occurs_at(hay@, needle@, i));
        return false;
    }
    let last = hay.len() - needle.len();
    let mut i: usize = 0;
    while i <= last
        invariant
            i <= last + 1,
            needle.len() > 0,
            last == hay.len() - needle.len(),
            forall|k: int| 0 <= k < i ==> !occurs_at(hay@, needle@, k),
        decreases last + 1 - i,
    {
        let piece = slice_of(hay, i, i + needle.len());
        if same_text(&piece, needle) {
            assert(occurs_at(hay@, needle@, i as int));
            return true;
        }
        i += 1;
    }
    assert(forall|k: int| !occurs_at(hay@, needle@, k));
    false
}

/// Joins `ws` with one space between neighbours.
pub fn join_with_spaces(ws: &Vec<Vec<char>>) -> (r: Vec<char>)
    ensures
        r@ == join_words(texts(ws@)),
{
    let mut r: Vec<char> = Vec::new();
    let mut i: usize = ws.len();
    let ghost all = texts(ws@);
    proof {
        assert(all.skip(ws.len() as int) =~= Seq::<Seq<char>>::empty());
    }
    while i > 0
        invariant
            i <= ws.len(),
            all == texts(ws@),
            r@ == join_words(all.skip(i as int)),
        decreases i,
    {
        i -= 1;
        let mut piece: Vec<char> = Vec::new();
        let mut k: usize = 0;
        while k < ws[i].len()
            invariant
                i < ws.len(),
                k <= ws[i as int].len(),
                piece@ == ws[i as int]@.take(k as int),
            decreases ws[i as int].len() - k,
        {
            piece.push(ws[i][k]);
            assert(ws[i as int]@.take(k + 1) == ws[i as int]@.take(k as int).push(
                ws[i as int]@[k as int],
            ));
            k += 1;
        }
        assert(ws[i as int]@.take(k as int) == ws[i as int]@);
        let ghost tail = all.skip(i as int);
        proof {
            assert(tail[0] == ws[i as int]@);
            assert(tail.skip(1) =~= all.skip(i + 1));
        }
        if i + 1 < ws.len() {
            piece.push(' ');
            let mut k: usize = 0;
            let ghost head = piece@;
            while k < r.len()
                invariant
                    k <= r.len(),
                    piece@ == head + r@.take(k as int),
                decreases r.len() - k,
            {
                piece.push(r[k]);
                assert(head + r@.take(k + 1) == (head + r@.take(k as int)).push(r@[k as int]));
                k += 1;
            }
            assert(r@.take(k as int) == r@);
            assert(tail.len() > 1);
        } else {
            assert(tail.len() == 1);
        }
        r = piece;
    }
    proof {
        assert(all.skip(0) =~= all);
    }
    r
}

} // verus!
