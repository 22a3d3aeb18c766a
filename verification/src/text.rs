//! Character-level helpers on which the header and cookie logic is built.
use vstd::prelude::*;

verus! {

broadcast use vstd::string::group_string_axioms;

/// `String::push` appends one character at the end.
pub assume_specification[ String::push ](s: &mut String, ch: char)
    ensures
        final(s)@ == old(s)@.push(ch),
;

/// The characters of `s`, in order.
pub fn chars_of(s: &str) -> (v: Vec<char>)
    ensures
        v@ == s@,
{
    let mut v: Vec<char> = Vec::new();
    for c in it: s.chars()
        invariant
            v@ == it.seq().take(it.index() as int),
    {
        v.push(c);
    }
    v
}

/// The string made of the characters of `v`.
pub fn string_of(v: &Vec<char>) -> (s: String)
    ensures
        s@ == v@,
{
    let mut s = String::new();
    for i in 0..v.len()
        invariant
            s@ == v@.take(i as int),
    {
        s.push(v[i]);
        assert(v@.take(i + 1) == v@.take(i as int).push(v@[i as int]));
    }
    assert(v@.take(v@.len() as int) == v@);
    s
}


/// Whether two character sequences are equal.
pub fn chars_eq(a: &Vec<char>, b: &Vec<char>) -> (r: bool)
    ensures
        r == (a@ == b@),
{
    if a.len() != b.len() {
        return false;
    }
    for i in 0..a.len()
        invariant
            a@.len() == b@.len(),
            forall|k: int| 0 <= k < i ==> a@[k] == b@[k],
    {
        if a[i] != b[i] {
            return false;
        }
    }
    assert(a@ =~= b@);
    true
}

/// The pieces of `s` between occurrences of `sep`, as `str::split` with a
/// character pattern yields them: `n` separators give `n + 1` pieces, and
/// the empty text gives one empty piece.
pub open spec fn split_on(s: Seq<char>, sep: char) -> Seq<Seq<char>>
    decreases s.len(),
{
    if s.len() == 0 {
        seq![Seq::<char>::empty()]
    } else {
        let r = split_on(s.drop_last(), sep);
        if s.last() == sep {
            r.push(Seq::<char>::empty())
        } else {
            r.update(r.len() - 1, r.last().push(s.last()))
        }
    }
}

/// `split_on` never yields an empty list of pieces.
pub proof fn lemma_split_on_nonempty(s: Seq<char>, sep: char)
    ensures
        split_on(s, sep).len() >= 1,
    decreases s.len(),
{
    if s.len() > 0 {
        lemma_split_on_nonempty(s.drop_last(), sep);
    }
}

/// Splits `s` at every occurrence of `sep`.
pub fn split_chars(s: &Vec<char>, sep: char) -> (pieces: Vec<Vec<char>>)
    ensures
        pieces@.len() == split_on(s@, sep).len(),
        forall|k: int| 0 <= k < pieces@.len() ==> #[trigger] pieces@[k]@ == split_on(s@, sep)[k],
{
    let mut pieces: Vec<Vec<char>> = Vec::new();
    let mut cur: Vec<char> = Vec::new();
    for i in 0..s.len()
        invariant
            pieces@.len() + 1 == split_on(s@.take(i as int), sep).len(),
            forall|k: int| 0 <= k < pieces@.len() ==> #[trigger] pieces@[k]@ == split_on(s@.take(i as int), sep)[k],
            cur@ == split_on(s@.take(i as int), sep).last(),
    {
        proof {
            lemma_split_on_nonempty(s@.take(i as int), sep);
            assert(s@.take(i + 1).drop_last() == s@.take(i as int));
        }
        let c = s[i];
        if c == sep {
            let mut done: Vec<char> = Vec::new();
            std::mem::swap(&mut done, &mut cur);
            pieces.push(done);
        } else {
            cur.push(c);
        }
    }
    proof {
        assert(s@.take(s@.len() as int) == s@);
        lemma_split_on_nonempty(s@, sep);
    }
    pieces.push(cur);
    pieces
}


/// A character that `HeaderValue::from_str` accepts: every byte of its
/// UTF-8 encoding is at least 32 and not 127, or a tab.
pub open spec fn header_char_ok(c: char) -> bool {
    (c as u32 >= 32 && c as u32 != 127) || c == '\t'
}

/// A text that `HeaderValue::from_str` turns into a header value.
pub open spec fn header_value_ok(s: Seq<char>) -> bool {
    forall|k: int| 0 <= k < s.len() ==> header_char_ok(#[trigger] s[k])
}

/// Whether `HeaderValue::from_str` accepts `s`.
pub fn is_header_value(s: &str) -> (r: bool)
    ensures
        r == header_value_ok(s@),
{
    let cs = chars_of(s);
    for i in 0..cs.len()
        invariant
            cs@ == s@,
            forall|k: int| 0 <= k < i ==> header_char_ok(#[trigger] cs@[k]),
    {
        let c = cs[i];
        if !((c as u32 >= 32 && c as u32 != 127) || c == '\t') {
            return false;
        }
    }
    true
}

/// A byte that `HeaderValue::to_str` accepts: visible ASCII or a tab.
pub open spec fn visible_ascii(b: u8) -> bool {
    (32 <= b && b < 127) || b == 9
}

/// A header value that `HeaderValue::to_str` reads as text.
pub open spec fn header_is_text(bs: Seq<u8>) -> bool {
    forall|k: int| 0 <= k < bs.len() ==> visible_ascii(#[trigger] bs[k])
}

/// Whether `HeaderValue::to_str` reads `bs` as text.
pub fn is_header_text(bs: &[u8]) -> (r: bool)
    ensures
        r == header_is_text(bs@),
{
    for i in 0..bs.len()
        invariant
            forall|k: int| 0 <= k < i ==> visible_ascii(#[trigger] bs@[k]),
    {
        let b = bs[i];
        if !((32 <= b && b < 127) || b == 9) {
            return false;
        }
    }
    true
}

/// The characters that ASCII bytes stand for.
pub open spec fn ascii_text(bs: Seq<u8>) -> Seq<char> {
    bs.map_values(|b: u8| b as char)
}

/// The string of ASCII bytes.
pub fn string_of_ascii(bs: &[u8]) -> (s: String)
    ensures
        s@ == ascii_text(bs@),
{
    let mut s = String::new();
    for i in 0..bs.len()
        invariant
            s@ == ascii_text(bs@.take(i as int)),
    {
        s.push(bs[i] as char);
        assert(ascii_text(bs@.take(i + 1)) =~= ascii_text(bs@.take(i as int)).push(bs@[i as int] as char));
    }
    assert(bs@.take(bs@.len() as int) == bs@);
    s
}


/// An ASCII byte that `char::is_whitespace` holds for.
pub open spec fn is_ascii_ws(b: u8) -> bool {
    b == 32 || (9 <= b && b <= 13)
}

/// The words of ASCII text as `str::split_whitespace` yields them: the
/// maximal runs of non-whitespace bytes, in order.
pub open spec fn ws_words(s: Seq<u8>) -> Seq<Seq<u8>>
    decreases s.len(),
{
    if s.len() == 0 {
        Seq::empty()
    } else {
        let w = ws_words(s.drop_last());
        let b = s.last();
        if is_ascii_ws(b) {
            w
        } else if s.len() >= 2 && !is_ascii_ws(s[s.len() - 2]) {
            w.update(w.len() - 1, w.last().push(b))
        } else {
            w.push(seq![b])
        }
    }
}

/// Text that ends in a non-whitespace byte has a word.
pub proof fn lemma_ws_words_nonempty(s: Seq<u8>)
    requires
        s.len() > 0,
        !is_ascii_ws(s.last()),
    ensures
        ws_words(s).len() >= 1,
        ws_words(s).last().len() >= 1,
        ws_words(s).last().last() == s.last(),
    decreases s.len(),
{
    if s.len() >= 2 && !is_ascii_ws(s[s.len() - 2]) {
        assert(s.drop_last().last() == s[s.len() - 2]);
        lemma_ws_words_nonempty(s.drop_last());
    }
}

/// A run of non-whitespace after whitespace (or at the start) is one more
/// word.
pub proof fn lemma_ws_words_append_word(p: Seq<u8>, t: Seq<u8>)
    requires
        p.len() == 0 || is_ascii_ws(p.last()),
        t.len() > 0,
        forall|k: int| 0 <= k < t.len() ==> !is_ascii_ws(#[trigger] t[k]),
    ensures
        ws_words(p + t) == ws_words(p).push(t),
    decreases t.len(),
{
    let s = p + t;
    assert(s.drop_last() == p + t.drop_last());
    assert(s.last() == t.last());
    if t.len() == 1 {
        assert(p + t.drop_last() == p);
        if s.len() >= 2 {
            assert(s[s.len() - 2] == p.last());
        }
        assert(seq![t.last()] == t);
    } else {
        let t1 = t.drop_last();
        lemma_ws_words_append_word(p, t1);
        assert(s[s.len() - 2] == t1.last());
        assert(t1.push(t.last()) == t);
    }
}

/// The words of ASCII text.
pub fn words_of(bs: &[u8]) -> (words: Vec<Vec<u8>>)
    ensures
        words@.len() == ws_words(bs@).len(),
        forall|k: int| 0 <= k < words@.len() ==> #[trigger] words@[k]@ == ws_words(bs@)[k],
{
    let mut words: Vec<Vec<u8>> = Vec::new();
    let mut cur: Vec<u8> = Vec::new();
    let mut in_word = false;
    for i in 0..bs.len()
        invariant
            in_word == (i > 0 && !is_ascii_ws(bs@[i - 1])),
            in_word ==> words@.len() + 1 == ws_words(bs@.take(i as int)).len()
                && cur@ == ws_words(bs@.take(i as int)).last(),
            !in_word ==> words@.len() == ws_words(bs@.take(i as int)).len(),
            forall|k: int| 0 <= k < words@.len() ==> #[trigger] words@[k]@ == ws_words(bs@.take(i as int))[k],
    {
        let ghost pre = bs@.take(i as int);
        let ghost s = bs@.take(i + 1);
        proof {
            assert(s.drop_last() == pre);
            assert(s.last() == bs@[i as int]);
            if i > 0 {
                assert(s[s.len() - 2] == bs@[i - 1]);
                assert(pre.last() == bs@[i - 1]);
            }
        }
        let b = bs[i];
        if b == 32 || (9 <= b && b <= 13) {
            if in_word {
                let mut done: Vec<u8> = Vec::new();
                std::mem::swap(&mut done, &mut cur);
                words.push(done);
                proof {
                    lemma_ws_words_nonempty(pre);
                }
            }
            in_word = false;
        } else {
            if in_word {
                proof {
                    lemma_ws_words_nonempty(pre);
                }
                cur.push(b);
            } else {
                cur = Vec::new();
                cur.push(b);
                assert(cur@ == seq![b]);
            }
            in_word = true;
        }
    }
    proof {
        assert(bs@.take(bs@.len() as int) == bs@);
    }
    if in_word {
        proof {
            lemma_ws_words_nonempty(bs@);
        }
        words.push(cur);
    }
    words
}


/// The decimal digit `d`.
pub open spec fn digit_char(d: nat) -> char {
    ((d + 48) as u8) as char
}

/// The decimal notation of `n`, as `Display` writes an unsigned integer.
pub open spec fn spec_decimal(n: nat) -> Seq<char>
    decreases n,
{
    if n < 10 {
        seq![digit_char(n)]
    } else {
        spec_decimal(n / 10).push(digit_char(n % 10))
    }
}

/// Appends the decimal notation of `n`.
pub fn push_decimal(s: &mut String, n: usize)
    ensures
        final(s)@ == old(s)@ + spec_decimal(n as nat),
    decreases n,
{
    if n >= 10 {
        push_decimal(s, n / 10);
    }
    let d = (n % 10) as u8;
    s.push((d + 48) as char);
    assert(old(s)@ + spec_decimal(n as nat) == old(s)@ + (if n >= 10 { spec_decimal((n / 10) as nat) } else { Seq::<char>::empty() }).push(digit_char((n % 10) as nat)));
}


/// `t` occurs in `s`.
pub open spec fn has_infix(s: Seq<char>, t: Seq<char>) -> bool {
    exists|i: int| 0 <= i && i + t.len() <= s.len() && #[trigger] s.subrange(i, i + t.len()) == t
}

/// Whether `t` occurs in `s`.
pub fn contains_infix(s: &Vec<char>, t: &Vec<char>) -> (r: bool)
    ensures
        r == has_infix(s@, t@),
{
    if t.len() == 0 {
        assert(s@.subrange(0int, 0int + t@.len()) =~= t@);
        return true;
    }
    if t.len() > s.len() {
        return false;
    }
    let sl = s.len();
    let last = sl - t.len();
    for i in 0..last + 1
        invariant
            sl == s@.len(),
            last == s@.len() - t@.len(),
            0 < t@.len() <= s@.len(),
            forall|k: int| 0 <= k < i ==> #[trigger] s@.subrange(k, k + t@.len()) != t@,
    {
        let mut j: usize = 0;
        let mut same = true;
        while j < t.len()
            invariant
                sl == s@.len(),
                i <= last,
                last == s@.len() - t@.len(),
                0 < t@.len() <= s@.len(),
                j <= t@.len(),
                same == forall|m: int| 0 <= m < j ==> s@[i + m] == t@[m],
            decreases t@.len() - j,
        {
            assert(i + j < s@.len());
            if s[i + j] != t[j] {
                same = false;
            }
            j = j + 1;
        }
        if same {
            assert(s@.subrange(i as int, i + t@.len()) =~= t@);
            return true;
        }
        let ghost m = choose|m: int| 0 <= m < t@.len() && s@[i + m] != t@[m];
        assert(s@.subrange(i as int, i + t@.len())[m] != t@[m]);
    }
    assert forall|k: int| 0 <= k && k + t@.len() <= s@.len() implies #[trigger] s@.subrange(k, k + t@.len()) != t@ by {
        assert(k <= last);
    }
    false
}

/// The index of the first `c` in `s`.
pub open spec fn first_index_of(s: Seq<char>, c: char) -> Option<int>
    decreases s.len(),
{
    if s.len() == 0 {
        None
    } else if s[0] == c {
        Some(0)
    } else {
        match first_index_of(s.drop_first(), c) {
            Some(i) => Some(i + 1),
            None => None,
        }
    }
}

proof fn lemma_first_index_of(s: Seq<char>, c: char, i: int)
    requires
        0 <= i <= s.len(),
        forall|k: int| 0 <= k < i ==> s[k] != c,
    ensures
        i == s.len() ==> first_index_of(s, c) is None,
        i < s.len() && s[i] == c ==> first_index_of(s, c) == Some(i),
    decreases i,
{
    if i > 0 {
        lemma_first_index_of(s.drop_first(), c, i - 1);
    }
}

proof fn lemma_first_index_of_none(s: Seq<char>, c: char)
    requires
        forall|k: int| 0 <= k < s.len() ==> s[k] != c,
    ensures
        first_index_of(s, c) is None,
    decreases s.len(),
{
    if s.len() > 0 {
        lemma_first_index_of_none(s.drop_first(), c);
    }
}

/// A found index lies inside the text.
pub proof fn lemma_first_index_of_bound(s: Seq<char>, c: char)
    ensures
        first_index_of(s, c) matches Some(i) ==> 0 <= i < s.len() && s[i] == c,
    decreases s.len(),
{
    if s.len() > 0 && s[0] != c {
        lemma_first_index_of_bound(s.drop_first(), c);
    }
}

/// The index of the first `c` in `s`.
pub fn index_of(s: &Vec<char>, c: char) -> (r: Option<usize>)
    ensures
        match r {
            Some(i) => first_index_of(s@, c) == Some(i as int),
            None => first_index_of(s@, c) is None,
        },
{
    for i in 0..s.len()
        invariant
            forall|k: int| 0 <= k < i ==> s@[k] != c,
    {
        if s[i] == c {
            proof {
                lemma_first_index_of(s@, c, i as int);
            }
            return Some(i);
        }
    }
    proof {
        lemma_first_index_of(s@, c, s@.len() as int);
    }
    None
}

} // verus!
