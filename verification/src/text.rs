//! Character-level text helpers: whitespace, trimming, splitting on a
//! separator, case-insensitive comparison with a lowercase word, and
//! substring search.
use vstd::prelude::*;

verus! {

/// Unicode's White_Space property: the characters that `char::is_whitespace`
/// accepts.
pub open spec fn is_white_space(c: char) -> bool {
    let n = c as u32;
    ||| 0x9 <= n <= 0xD
    ||| n == 0x20
    ||| n == 0x85
    ||| n == 0xA0
    ||| n == 0x1680
    ||| 0x2000 <= n <= 0x200A
    ||| n == 0x2028
    ||| n == 0x2029
    ||| n == 0x202F
    ||| n == 0x205F
    ||| n == 0x3000
}

/// Whether `c` is a whitespace character (Unicode White_Space).
pub fn is_whitespace_char(c: char) -> (b: bool)
    ensures
        b == is_white_space(c),
{
    let n = c as u32;
    (0x9 <= n && n <= 0xD) || n == 0x20 || n == 0x85 || n == 0xA0 || n == 0x1680 || (0x2000 <= n
        && n <= 0x200A) || n == 0x2028 || n == 0x2029 || n == 0x202F || n == 0x205F || n == 0x3000
}

/// `s` without its leading whitespace.
pub open spec fn trim_start(s: Seq<char>) -> Seq<char>
    decreases s.len(),
{
    if s.len() > 0 && is_white_space(s[0]) {
        trim_start(s.drop_first())
    } else {
        s
    }
}

/// `s` without its trailing whitespace.
pub open spec fn trim_end(s: Seq<char>) -> Seq<char>
    decreases s.len(),
{
    if s.len() > 0 && is_white_space(s.last()) {
        trim_end(s.drop_last())
    } else {
        s
    }
}

/// `s` without leading and trailing whitespace, as `str::trim` gives it.
pub open spec fn trimmed(s: Seq<char>) -> Seq<char> {
    trim_end(trim_start(s))
}

/// Trimming keeps one stretch of the text and drops only whitespace around
/// it: the result is `s[lo..hi]` for some `lo <= hi`, everything before
/// `lo` and from `hi` on is whitespace, and the result neither starts nor
/// ends with whitespace.
pub proof fn lemma_trim_keeps_inner_stretch(s: Seq<char>)
    ensures
        exists|lo: int, hi: int|
            {
                &&& 0 <= lo <= hi <= s.len()
                &&& trimmed(s) == s.subrange(lo, hi)
                &&& forall|i: int| 0 <= i < lo ==> is_white_space(#[trigger] s[i])
                &&& forall|i: int| hi <= i < s.len() ==> is_white_space(#[trigger] s[i])
            },
        trimmed(s).len() > 0 ==> !is_white_space(trimmed(s)[0]) && !is_white_space(
            trimmed(s).last(),
        ),
{
    let lo = lemma_trim_start_drops(s);
    let t = s.skip(lo);
    let m = lemma_trim_end_takes(t);
    let hi = lo + m;
    assert(t.take(m) =~= s.subrange(lo, hi));
    assert forall|i: int| hi <= i < s.len() implies is_white_space(#[trigger] s[i]) by {
        assert(s[i] == t[i - lo]);
    }
    if trimmed(s).len() > 0 {
        assert(trimmed(s)[0] == t[0]);
    }
    assert(0 <= lo <= hi <= s.len() && trimmed(s) == s.subrange(lo, hi));
}

/// `trim_start` drops a prefix of whitespace, as long as one can.
proof fn lemma_trim_start_drops(s: Seq<char>) -> (k: int)
    ensures
        0 <= k <= s.len(),
        trim_start(s) == s.skip(k),
        forall|i: int| 0 <= i < k ==> is_white_space(#[trigger] s[i]),
        k < s.len() ==> !is_white_space(s[k]),
    decreases s.len(),
{
    if s.len() > 0 && is_white_space(s[0]) {
        let k1 = lemma_trim_start_drops(s.drop_first());
        assert(s.drop_first().skip(k1) =~= s.skip(k1 + 1));
        assert forall|i: int| 0 <= i < k1 + 1 implies is_white_space(#[trigger] s[i]) by {
            if i > 0 {
                assert(s[i] == s.drop_first()[i - 1]);
            }
        }
        k1 + 1
    } else {
        assert(s.skip(0) =~= s);
        0
    }
}

/// `trim_end` keeps a prefix and drops only whitespace after it.
proof fn lemma_trim_end_takes(t: Seq<char>) -> (m: int)
    ensures
        0 <= m <= t.len(),
        trim_end(t) == t.take(m),
        forall|i: int| m <= i < t.len() ==> is_white_space(#[trigger] t[i]),
        m > 0 ==> !is_white_space(t[m - 1]),
    decreases t.len(),
{
    if t.len() > 0 && is_white_space(t.last()) {
        let m1 = lemma_trim_end_takes(t.drop_last());
        assert(t.drop_last().take(m1) =~= t.take(m1));
        assert forall|i: int| m1 <= i < t.len() implies is_white_space(#[trigger] t[i]) by {
            if i < t.len() - 1 {
                assert(t[i] == t.drop_last()[i]);
            }
        }
        m1
    } else {
        assert(t.take(t.len() as int) =~= t);
        t.len() as int
    }
}

/// A copy of `s` without leading and trailing whitespace.
pub fn trim(s: &str) -> (t: String)
    ensures
        t@ == trimmed(s@),
{
    let n = s.unicode_len();
    let mut lo: usize = 0;
    assert(s@.skip(0) =~= s@);
    while lo < n && is_whitespace_char(s.get_char(lo))
        invariant
            lo <= n,
            n == s@.len(),
            trim_start(s@) == trim_start(s@.skip(lo as int)),
        decreases n - lo,
    {
        assert(s@.skip(lo as int).drop_first() =~= s@.skip(lo + 1));
        lo = lo + 1;
    }
    assert(trim_start(s@.skip(lo as int)) == s@.skip(lo as int));
    assert(s@.skip(lo as int) =~= s@.subrange(lo as int, n as int));
    let mut hi: usize = n;
    while hi > lo && is_whitespace_char(s.get_char(hi - 1))
        invariant
            lo <= hi <= n,
            n == s@.len(),
            trim_end(s@.subrange(lo as int, n as int)) == trim_end(
                s@.subrange(lo as int, hi as int),
            ),
        decreases hi,
    {
        assert(s@.subrange(lo as int, hi as int).drop_last() =~= s@.subrange(
            lo as int,
            hi - 1,
        ));
        hi = hi - 1;
    }
    let piece = s.substring_char(lo, hi);
    String::from_str(piece)
}

/// The pieces of `s` between occurrences of `sep`, as `str::split` gives
/// them: one more piece than there are separators, empty pieces included.
pub open spec fn split_on(s: Seq<char>, sep: char) -> Seq<Seq<char>>
    decreases s.len(),
{
    if s.len() == 0 {
        seq![Seq::<char>::empty()]
    } else {
        let before = split_on(s.drop_last(), sep);
        if s.last() == sep {
            before.push(Seq::<char>::empty())
        } else {
            before.update(before.len() - 1, before.last().push(s.last()))
        }
    }
}

/// The pieces joined back together, with `sep` between neighbours.
pub open spec fn join_with(pieces: Seq<Seq<char>>, sep: char) -> Seq<char>
    decreases pieces.len(),
{
    if pieces.len() == 0 {
        Seq::empty()
    } else if pieces.len() == 1 {
        pieces[0]
    } else {
        join_with(pieces.drop_last(), sep) + seq![sep] + pieces.last()
    }
}

/// Splitting loses nothing: putting the separator back between the pieces
/// gives the text again.
pub proof fn lemma_split_then_join(s: Seq<char>, sep: char)
    ensures
        join_with(split_on(s, sep), sep) == s,
    decreases s.len(),
{
    if s.len() == 0 {
        assert(join_with(split_on(s, sep), sep) =~= s);
    } else {
        let init = s.drop_last();
        let last = s.last();
        let before = split_on(init, sep);
        lemma_split_then_join(init, sep);
        lemma_split_nonempty(init, sep);
        if last == sep {
            let after = before.push(Seq::<char>::empty());
            assert(after.drop_last() =~= before);
            assert(join_with(after, sep) =~= init + seq![sep]);
        } else {
            lemma_join_extend_last(before, sep, last);
        }
        assert(init.push(last) =~= s);
    }
}

/// There is always at least one piece.
proof fn lemma_split_nonempty(s: Seq<char>, sep: char)
    ensures
        split_on(s, sep).len() >= 1,
    decreases s.len(),
{
    if s.len() > 0 {
        lemma_split_nonempty(s.drop_last(), sep);
    }
}

/// Extending the last piece by `c` extends the joined text by `c`.
proof fn lemma_join_extend_last(pieces: Seq<Seq<char>>, sep: char, c: char)
    requires
        pieces.len() >= 1,
    ensures
        join_with(pieces.update(pieces.len() - 1, pieces.last().push(c)), sep) == join_with(
            pieces,
            sep,
        ).push(c),
{
    let after = pieces.update(pieces.len() - 1, pieces.last().push(c));
    if pieces.len() > 1 {
        assert(after.drop_last() =~= pieces.drop_last());
        assert(join_with(after, sep) =~= join_with(pieces, sep).push(c));
    } else {
        assert(join_with(after, sep) =~= join_with(pieces, sep).push(c));
    }
}

/// Every occurrence of the separator splits: no piece holds the separator.
pub proof fn lemma_split_pieces_hold_no_separator(s: Seq<char>, sep: char)
    ensures
        forall|k: int, j: int|
            0 <= k < split_on(s, sep).len() && 0 <= j < split_on(s, sep)[k].len() ==> #[trigger] split_on(
                s,
                sep,
            )[k][j] != sep,
    decreases s.len(),
{
    if s.len() > 0 {
        let init = s.drop_last();
        lemma_split_pieces_hold_no_separator(init, sep);
        lemma_split_nonempty(init, sep);
        let before = split_on(init, sep);
        let pieces = split_on(s, sep);
        assert forall|k: int, j: int|
            0 <= k < pieces.len() && 0 <= j < pieces[k].len() implies #[trigger] pieces[k][j]
            != sep by {
            if s.last() != sep && k == before.len() - 1 {
                if j < before.last().len() {
                    assert(pieces[k][j] == before[k][j]);
                }
            } else if k < before.len() {
                assert(pieces[k] == before[k]);
            }
        }
    }
}

/// There is one more piece than there are separators in the text.
pub proof fn lemma_split_piece_count(s: Seq<char>, sep: char)
    ensures
        split_on(s, sep).len() == s.filter(|c: char| c == sep).len() + 1,
    decreases s.len(),
{
    let pred = |c: char| c == sep;
    if s.len() == 0 {
        reveal(Seq::filter);
    } else {
        let init = s.drop_last();
        lemma_split_piece_count(init, sep);
        assert(init.push(s.last()) =~= s);
        init.lemma_filter_push(s.last(), pred);
    }
}

/// The pieces of `s` between occurrences of `sep`, each trimmed of
/// leading and trailing whitespace.
pub fn split_and_trim(s: &str, sep: char) -> (pieces: Vec<String>)
    ensures
        pieces@.len() == split_on(s@, sep).len(),
        forall|k: int|
            0 <= k < pieces@.len() ==> #[trigger] pieces@[k]@ == trimmed(split_on(s@, sep)[k]),
{
    let n = s.unicode_len();
    let mut out: Vec<String> = Vec::new();
    let mut start: usize = 0;
    let mut i: usize = 0;
    let ghost mut done: Seq<Seq<char>> = Seq::empty();
    assert(s@.take(0) =~= Seq::<char>::empty());
    assert(s@.subrange(0, 0) =~= Seq::<char>::empty());
    while i < n
        invariant
            start <= i <= n,
            n == s@.len(),
            split_on(s@.take(i as int), sep) == done.push(s@.subrange(start as int, i as int)),
            out@.len() == done.len(),
            forall|k: int| 0 <= k < out@.len() ==> #[trigger] out@[k]@ == trimmed(done[k]),
        decreases n - i,
    {
        let c = s.get_char(i);
        assert(s@.take(i + 1).drop_last() =~= s@.take(i as int));
        assert(s@.take(i + 1).last() == c);
        if c == sep {
            let piece = s.substring_char(start, i);
            let t = trim(piece);
            out.push(t);
            proof {
                done = done.push(s@.subrange(start as int, i as int));
            }
            start = i + 1;
            assert(s@.subrange(start as int, start as int) =~= Seq::<char>::empty());
        } else {
            assert(s@.subrange(start as int, i as int).push(c) =~= s@.subrange(
                start as int,
                i + 1,
            ));
        }
        i = i + 1;
    }
    assert(s@.take(n as int) =~= s@);
    let last = s.substring_char(start, n);
    let t = trim(last);
    out.push(t);
    proof {
        done = done.push(s@.subrange(start as int, n as int));
    }
    out
}

/// The code of `c` with ASCII capitals mapped to their lowercase letters.
pub open spec fn ascii_lower_code(c: char) -> u32 {
    let n = c as u32;
    if 65 <= n <= 90 {
        (n + 32) as u32
    } else {
        n
    }
}

/// `s` equals `word` once its ASCII capitals are lowered.
///
/// For a `word` made of lowercase ASCII letters other than `k` this is
/// exactly `s.to_lowercase() == word`: outside ASCII, the only character
/// whose lowercase form is an ASCII letter is the Kelvin sign, which lowers
/// to `k`.
pub open spec fn lowercases_to(s: Seq<char>, word: Seq<char>) -> bool {
    &&& s.len() == word.len()
    &&& forall|i: int| 0 <= i < s.len() ==> ascii_lower_code(#[trigger] s[i]) == word[i] as u32
}

/// `c` is an ASCII capital letter.
pub open spec fn is_ascii_capital(c: char) -> bool {
    65 <= c as u32 <= 90
}

/// `c` is an ASCII lowercase letter.
pub open spec fn is_ascii_small(c: char) -> bool {
    97 <= c as u32 <= 122
}

/// A text without ASCII capitals lowers to itself.
pub proof fn lemma_lowercase_word_matches_itself(w: Seq<char>)
    requires
        forall|i: int| 0 <= i < w.len() ==> !is_ascii_capital(#[trigger] w[i]),
    ensures
        lowercases_to(w, w),
{
}

/// Capitalising any of the letters of a lowercase word still matches it.
pub proof fn lemma_capitalised_word_matches(s: Seq<char>, w: Seq<char>)
    requires
        s.len() == w.len(),
        forall|i: int| 0 <= i < w.len() ==> !is_ascii_capital(#[trigger] w[i]),
        forall|i: int|
            0 <= i < s.len() ==> #[trigger] s[i] == w[i] || (is_ascii_small(w[i]) && s[i] as u32
                + 32 == w[i] as u32),
    ensures
        lowercases_to(s, w),
{
    assert forall|i: int| 0 <= i < s.len() implies ascii_lower_code(#[trigger] s[i]) == w[i] as u32 by {
        if s[i] != w[i] {
            assert(is_ascii_small(w[i]));
        }
    }
}

/// Nothing else matches a word without capitals: each character is the
/// word's own or its ASCII capital.
pub proof fn lemma_match_is_letterwise(s: Seq<char>, w: Seq<char>)
    requires
        lowercases_to(s, w),
        forall|i: int| 0 <= i < w.len() ==> !is_ascii_capital(#[trigger] w[i]),
    ensures
        s.len() == w.len(),
        forall|i: int|
            0 <= i < s.len() ==> #[trigger] s[i] == w[i] || (is_ascii_capital(s[i]) && s[i] as u32
                + 32 == w[i] as u32),
{
    assert forall|i: int| 0 <= i < s.len() implies #[trigger] s[i] == w[i] || (is_ascii_capital(
        s[i],
    ) && s[i] as u32 + 32 == w[i] as u32) by {
        assert(ascii_lower_code(s[i]) == w[i] as u32);
        if !is_ascii_capital(s[i]) {
            assert(s[i] as u32 == w[i] as u32);
            vstd::utf8::char_u32_cast(s[i], s[i] as u32);
            vstd::utf8::char_u32_cast(w[i], w[i] as u32);
        }
    }
}

/// Whether `s`, with its ASCII capitals lowered, equals `word`.
pub fn lowercase_is(s: &str, word: &str) -> (b: bool)
    ensures
        b == lowercases_to(s@, word@),
{
    let n = s.unicode_len();
    let m = word.unicode_len();
    if n != m {
        return false;
    }
    let mut i: usize = 0;
    while i < n
        invariant
            i <= n,
            n == s@.len(),
            m == word@.len(),
            n == m,
            forall|j: int| 0 <= j < i ==> ascii_lower_code(#[trigger] s@[j]) == word@[j] as u32,
        decreases n - i,
    {
        let c = s.get_char(i);
        let w = word.get_char(i);
        let code = c as u32;
        let lowered: u32 = if 65 <= code && code <= 90 {
            code + 32
        } else {
            code
        };
        if lowered != w as u32 {
            assert(ascii_lower_code(s@[i as int]) != word@[i as int] as u32);
            return false;
        }
        i = i + 1;
    }
    true
}

/// `needle` occurs in `hay` starting at position `i`.
pub open spec fn occurs_at(hay: Seq<char>, needle: Seq<char>, i: int) -> bool {
    &&& 0 <= i
    &&& i + needle.len() <= hay.len()
    &&& hay.subrange(i, i + needle.len()) == needle
}

/// `needle` occurs somewhere in `hay`.
pub open spec fn occurs_in(hay: Seq<char>, needle: Seq<char>) -> bool {
    exists|i: int| occurs_at(hay, needle, i)
}

/// Whether `needle` occurs in `hay`.
pub fn contains_str(hay: &str, needle: &str) -> (b: bool)
    ensures
        b == occurs_in(hay@, needle@),
{
    let h = hay.unicode_len();
    let m = needle.unicode_len();
    if m > h {
        assert forall|i: int| !occurs_at(hay@, needle@, i) by {}
        return false;
    }
    let mut i: usize = 0;
    while i <= h - m
        invariant
            h == hay@.len(),
            m == needle@.len(),
            m <= h,
            i <= h - m + 1,
            forall|j: int| 0 <= j < i ==> !#[trigger] occurs_at(hay@, needle@, j),
        decreases h - m + 1 - i,
    {
        let mut k: usize = 0;
        let mut same = true;
        while k < m
            invariant
                h == hay@.len(),
                m == needle@.len(),
                i + m <= h,
                k <= m,
                same ==> forall|j: int| 0 <= j < k ==> hay@[i + j] == needle@[j],
                !same ==> exists|j: int| 0 <= j < m && hay@[i + j] != needle@[j],
            decreases m - k,
        {
            if hay.get_char(i + k) != needle.get_char(k) {
                same = false;
            }
            k = k + 1;
        }
        if same {
            assert(hay@.subrange(i as int, i + m) =~= needle@);
            assert(occurs_at(hay@, needle@, i as int));
            return true;
        }
        proof {
            let j = choose|j: int| 0 <= j < m && hay@[i + j] != needle@[j];
            assert(hay@.subrange(i as int, i + m)[j] != needle@[j]);
        }
        i = i + 1;
    }
    assert forall|j: int| !occurs_at(hay@, needle@, j) by {
        if 0 <= j < i {
        }
    }
    false
}

} // verus!
