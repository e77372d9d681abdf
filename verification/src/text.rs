//! Text helpers: characters of a string, comparisons and decimal numbers.
use vstd::prelude::*;
use vstd::string::StringSliceAdditionalSpecFns;

verus! {

/// The characters of `s`.
pub fn chars_of(s: &str) -> (v: Vec<char>)
    ensures
        v@ == s@,
{
    let n = s.unicode_len();
    let mut v: Vec<char> = Vec::new();
    let mut i: usize = 0;
    while i < n
        invariant
            i <= n,
            n == s@.len(),
            v@ == s@.take(i as int),
        decreases n - i,
    {
        v.push(s.get_char(i));
        i = i + 1;
        assert(v@ =~= s@.take(i as int));
    }
    assert(s@.take(n as int) =~= s@);
    v
}

/// Whether two strings hold the same characters.
pub fn text_eq(a: &str, b: &str) -> (r: bool)
    ensures
        r == (a@ == b@),
{
    let x = chars_of(a);
    let y = chars_of(b);
    if x.len() != y.len() {
        return false;
    }
    let mut i: usize = 0;
    while i < x.len()
        invariant
            i <= x.len() == y.len(),
            x@ == a@,
            y@ == b@,
            forall|j: int| 0 <= j < i ==> x@[j] == y@[j],
        decreases x.len() - i,
    {
        if x[i] != y[i] {
            assert(x@[i as int] != y@[i as int]);
            return false;
        }
        i = i + 1;
    }
    assert(x@ =~= y@);
    true
}

/// `p` is a prefix of `s`.
pub open spec fn starts_with(s: Seq<char>, p: Seq<char>) -> bool {
    p.len() <= s.len() && s.take(p.len() as int) == p
}

/// `p` is a suffix of `s`.
pub open spec fn ends_with(s: Seq<char>, p: Seq<char>) -> bool {
    p.len() <= s.len() && s.skip(s.len() - p.len()) == p
}

/// `p` occurs in `s` at offset `i`.
pub open spec fn occurs_at(s: Seq<char>, p: Seq<char>, i: int) -> bool {
    0 <= i && i + p.len() <= s.len() && s.subrange(i, i + p.len()) == p
}

/// `p` occurs somewhere in `s`.
pub open spec fn contains(s: Seq<char>, p: Seq<char>) -> bool {
    exists|i: int| occurs_at(s, p, i)
}

/// Whether `p` occurs in `s` at offset `i`.
pub fn occurs_at_exec(s: &Vec<char>, p: &Vec<char>, i: usize) -> (r: bool)
    ensures
        r == occurs_at(s@, p@, i as int),
{
    if p.len() > s.len() || i > s.len() - p.len() {
        return false;
    }
    let mut j: usize = 0;
    while j < p.len()
        invariant
            i + p.len() <= s.len(),
            j <= p.len(),
            forall|k: int| 0 <= k < j ==> s@[i + k] == p@[k],
        decreases p.len() - j,
    {
        if s[i + j] != p[j] {
            assert(s@.subrange(i as int, i + p.len())[j as int] != p@[j as int]);
            return false;
        }
        j = j + 1;
    }
    assert(s@.subrange(i as int, i + p.len()) =~= p@);
    true
}

/// Whether `s` starts with `p`.
pub fn starts_with_exec(s: &Vec<char>, p: &str) -> (r: bool)
    ensures
        r == starts_with(s@, p@),
{
    let pv = chars_of(p);
    let r = occurs_at_exec(s, &pv, 0);
    assert(s@.subrange(0, p@.len() as int) =~= s@.take(p@.len() as int));
    r
}

/// Whether `s` ends with `p`.
pub fn ends_with_exec(s: &Vec<char>, p: &str) -> (r: bool)
    ensures
        r == ends_with(s@, p@),
{
    let pv = chars_of(p);
    if pv.len() > s.len() {
        return false;
    }
    let r = occurs_at_exec(s, &pv, s.len() - pv.len());
    assert(s@.subrange(s.len() - pv.len(), s@.len() as int) =~= s@.skip(s.len() - pv.len()));
    r
}

/// Whether `p` occurs in `s`.
pub fn contains_exec(s: &Vec<char>, p: &str) -> (r: bool)
    ensures
        r == contains(s@, p@),
{
    let pv = chars_of(p);
    if pv.len() > s.len() {
        assert forall|i: int| !occurs_at(s@, p@, i) by {}
        return false;
    }
    if pv.len() == 0 {
        assert(s@.subrange(0, 0) =~= p@);
        assert(occurs_at(s@, p@, 0));
        return true;
    }
    let last = s.len() - pv.len();
    let mut i: usize = 0;
    while i <= last
        invariant
            last == s@.len() - p@.len(),
            last < s.len(),
            p@.len() >= 1,
            pv@ == p@,
            forall|k: int| 0 <= k < i ==> !occurs_at(s@, p@, k),
        decreases last + 1 - i,
    {
        if occurs_at_exec(s, &pv, i) {
            return true;
        }
        i = i + 1;
    }
    assert forall|k: int| !occurs_at(s@, p@, k) by {
        if occurs_at(s@, p@, k) {
            assert(0 <= k <= last);
        }
    }
    false
}

/// Whether the character `c` occurs in `s`.
pub fn has_char(s: &Vec<char>, c: char) -> (r: bool)
    ensures
        r == s@.contains(c),
{
    let mut i: usize = 0;
    while i < s.len()
        invariant
            i <= s.len(),
            forall|k: int| 0 <= k < i ==> s@[k] != c,
        decreases s.len() - i,
    {
        if s[i] == c {
            return true;
        }
        i = i + 1;
    }
    false
}

/// The decimal digit for `d < 10`.
pub open spec fn digit_char(d: int) -> char {
    if d == 0 {
        '0'
    } else if d == 1 {
        '1'
    } else if d == 2 {
        '2'
    } else if d == 3 {
        '3'
    } else if d == 4 {
        '4'
    } else if d == 5 {
        '5'
    } else if d == 6 {
        '6'
    } else if d == 7 {
        '7'
    } else if d == 8 {
        '8'
    } else {
        '9'
    }
}

/// The decimal notation of `n`, without leading zeros.
pub open spec fn decimal(n: nat) -> Seq<char>
    decreases n,
{
    if n < 10 {
        seq![digit_char(n as int)]
    } else {
        decimal(n / 10).push(digit_char((n % 10) as int))
    }
}

fn digit_text(d: usize) -> (s: &'static str)
    requires
        d < 10,
    ensures
        s@ == seq![digit_char(d as int)],
{
    if d == 0 {
        proof {
            reveal_strlit("0");
        }
        "0"
    } else if d == 1 {
        proof {
            reveal_strlit("1");
        }
        "1"
    } else if d == 2 {
        proof {
            reveal_strlit("2");
        }
        "2"
    } else if d == 3 {
        proof {
            reveal_strlit("3");
        }
        "3"
    } else if d == 4 {
        proof {
            reveal_strlit("4");
        }
        "4"
    } else if d == 5 {
        proof {
            reveal_strlit("5");
        }
        "5"
    } else if d == 6 {
        proof {
            reveal_strlit("6");
        }
        "6"
    } else if d == 7 {
        proof {
            reveal_strlit("7");
        }
        "7"
    } else if d == 8 {
        proof {
            reveal_strlit("8");
        }
        "8"
    } else {
        proof {
            reveal_strlit("9");
        }
        "9"
    }
}

/// Append the decimal notation of `n` to `s`.
pub fn append_decimal(s: &mut String, n: u64)
    ensures
        final(s)@ == old(s)@ + decimal(n as nat),
    decreases n,
{
    if n < 10 {
        s.append(digit_text(n as usize));
    } else {
        append_decimal(s, n / 10);
        s.append(digit_text((n % 10) as usize));
        assert(decimal(n as nat) == decimal((n / 10) as nat).push(digit_char((n % 10) as int)));
    }
}

/// The decimal notation of `n`.
pub fn decimal_string(n: u64) -> (s: String)
    ensures
        s@ == decimal(n as nat),
{
    let mut s = String::new();
    append_decimal(&mut s, n);
    s
}

/// The characters of `s` joined by `sep`.
pub open spec fn join(items: Seq<Seq<char>>, sep: Seq<char>) -> Seq<char>
    decreases items.len(),
{
    if items.len() == 0 {
        Seq::empty()
    } else if items.len() == 1 {
        items[0]
    } else {
        join(items.drop_last(), sep) + sep + items.last()
    }
}

/// Strings taken by value.
pub open spec fn strings_view(v: Seq<String>) -> Seq<Seq<char>> {
    v.map_values(|s: String| s@)
}

/// `items` joined by `sep`.
pub fn join_strings(items: &Vec<String>, sep: &str) -> (s: String)
    ensures
        s@ == join(strings_view(items@), sep@),
{
    let mut s = String::new();
    let ghost iv = strings_view(items@);
    let mut i: usize = 0;
    while i < items.len()
        invariant
            i <= items.len(),
            iv == strings_view(items@),
            s@ == join(iv.take(i as int), sep@),
        decreases items.len() - i,
    {
        if i > 0 {
            s.append(sep);
        }
        s.append(items[i].as_str());
        proof {
            let t = iv.take(i + 1);
            assert(t.drop_last() =~= iv.take(i as int));
            assert(t.last() == items@[i as int]@);
            if i == 0 {
                assert(iv.take(0) =~= Seq::<Seq<char>>::empty());
            }
        }
        i = i + 1;
    }
    assert(iv.take(i as int) =~= iv);
    s
}

/// Append the bytes of `src` to `dst`.
pub fn append_bytes(dst: &mut Vec<u8>, src: &[u8])
    ensures
        final(dst)@ == old(dst)@ + src@,
{
    let ghost start = dst@;
    let mut i: usize = 0;
    while i < src.len()
        invariant
            i <= src.len(),
            dst@ == start + src@.take(i as int),
        decreases src.len() - i,
    {
        dst.push(src[i]);
        i = i + 1;
        assert(src@.take(i as int) == src@.take(i - 1) + seq![src@[i - 1]]);
    }
    assert(src@.take(i as int) == src@);
}

/// The UTF-8 encoding of a text.
pub open spec fn utf8(s: Seq<char>) -> Seq<u8> {
    vstd::utf8::encode_utf8(s)
}

/// Append the UTF-8 encoding of `s` to `w`.
pub fn write_text(w: &mut Vec<u8>, s: &str)
    ensures
        final(w)@ == old(w)@ + utf8(s@),
{
    append_bytes(w, s.as_bytes());
}

// ---------------------------------------------------------------------------
// Lines of text
// ---------------------------------------------------------------------------

/// Index just past the end of the line of `s` that starts at `i`.
pub open spec fn text_line_end(s: Seq<char>, i: int) -> int
    decreases s.len() - i,
{
    if i >= s.len() {
        s.len() as int
    } else if s[i] == '\n' {
        i + 1
    } else {
        text_line_end(s, i + 1)
    }
}

/// The line that starts at `i` is not empty and ends within the text.
pub proof fn lemma_text_line_end(s: Seq<char>, i: int)
    requires
        0 <= i < s.len(),
    ensures
        i < text_line_end(s, i) <= s.len(),
    decreases s.len() - i,
{
    if s[i] != '\n' {
        if i + 1 < s.len() {
            lemma_text_line_end(s, i + 1);
        } else {
            assert(text_line_end(s, i + 1) == s.len());
        }
    }
}

proof fn lemma_text_line_end_at(s: Seq<char>, i: int, m: int)
    requires
        0 <= i <= m <= s.len(),
        forall|j: int| i <= j < m ==> s[j] != '\n',
    ensures
        m < s.len() && s[m] == '\n' ==> text_line_end(s, i) == m + 1,
        m == s.len() ==> text_line_end(s, i) == s.len(),
    decreases m - i,
{
    if i < m {
        lemma_text_line_end_at(s, i + 1, m);
    }
}

/// `s` split after every `\n`, each piece keeping its `\n`.
pub open spec fn split_inclusive_nl(s: Seq<char>) -> Seq<Seq<char>>
    decreases s.len(),
{
    if s.len() == 0 {
        Seq::empty()
    } else {
        let k = text_line_end(s, 0);
        proof {
            lemma_text_line_end(s, 0);
        }
        seq![s.take(k)] + split_inclusive_nl(s.skip(k))
    }
}

/// A piece without its line ending (`\n` or `\r\n`).
pub open spec fn strip_line_ending(l: Seq<char>) -> Seq<char> {
    if l.len() > 0 && l.last() == '\n' {
        let m = l.drop_last();
        if m.len() > 0 && m.last() == '\r' {
            m.drop_last()
        } else {
            m
        }
    } else {
        l
    }
}

/// The lines of `s` as `str::lines` gives them: split at `\n`, without the
/// line endings, no empty line after a final `\n`.
pub open spec fn text_lines(s: Seq<char>) -> Seq<Seq<char>> {
    split_inclusive_nl(s).map_values(|l: Seq<char>| strip_line_ending(l))
}

/// The character spans `[start, end)` of the lines of `s`, line endings
/// excluded, in order.
pub fn line_spans(s: &Vec<char>) -> (spans: Vec<(usize, usize)>)
    ensures
        spans@.len() == text_lines(s@).len(),
        forall|k: int|
            #![trigger spans@[k]]
            0 <= k < spans@.len() ==> spans@[k].0 <= spans@[k].1 <= s@.len() && s@.subrange(
                spans@[k].0 as int,
                spans@[k].1 as int,
            ) == text_lines(s@)[k],
{
    let ghost v = s@;
    let mut spans: Vec<(usize, usize)> = Vec::new();
    let mut start: usize = 0;
    let mut i: usize = 0;
    let ghost mut pieces: Seq<Seq<char>> = Seq::empty();
    assert(v.skip(0) =~= v);
    while i < s.len()
        invariant
            start <= i <= s.len(),
            v == s@,
            forall|j: int| start <= j < i ==> v[j] != '\n',
            pieces + split_inclusive_nl(v.skip(start as int)) == split_inclusive_nl(v),
            spans@.len() == pieces.len(),
            forall|k: int|
                #![trigger spans@[k]]
                0 <= k < spans@.len() ==> spans@[k].0 <= spans@[k].1 <= v.len() && v.subrange(
                    spans@[k].0 as int,
                    spans@[k].1 as int,
                ) == strip_line_ending(pieces[k]),
        decreases s.len() - i,
    {
        if s[i] == '\n' {
            let ghost t = v.skip(start as int);
            let ghost piece = v.subrange(start as int, i + 1);
            proof {
                assert forall|j: int| 0 <= j < i - start implies t[j] != '\n' by {
                    assert(t[j] == v[start + j]);
                }
                lemma_text_line_end_at(t, 0, i - start);
                assert(t.take(i - start + 1) =~= piece);
                assert(t.skip(i - start + 1) =~= v.skip(i + 1));
                assert(split_inclusive_nl(t) == seq![piece] + split_inclusive_nl(v.skip(i + 1)));
            }
            let end = if i > start && s[i - 1] == '\r' {
                i - 1
            } else {
                i
            };
            proof {
                let m = piece.drop_last();
                assert(m =~= v.subrange(start as int, i as int));
                if i > start && v[i - 1] == '\r' {
                    assert(m.drop_last() =~= v.subrange(start as int, i - 1));
                }
                assert(strip_line_ending(piece) == v.subrange(start as int, end as int));
                assert(pieces.push(piece) + split_inclusive_nl(v.skip(i + 1)) =~= pieces
                    + split_inclusive_nl(t));
            }
            let ghost old_pieces = pieces;
            let ghost old_spans = spans@;
            proof {
                pieces = pieces.push(piece);
            }
            spans.push((start, end));
            proof {
                assert forall|k: int| 0 <= k < spans@.len() implies spans@[k].0 <= spans@[k].1
                    <= v.len() && v.subrange(spans@[k].0 as int, spans@[k].1 as int)
                    == strip_line_ending(#[trigger] pieces[k]) by {
                    if k < old_spans.len() {
                        assert(spans@[k] == old_spans[k]);
                        assert(pieces[k] == old_pieces[k]);
                    } else {
                        assert(spans@[k] == (start, end));
                        assert(pieces[k] == piece);
                    }
                }
            }
            start = i + 1;
        }
        i = i + 1;
    }
    if start < s.len() {
        let ghost t = v.skip(start as int);
        proof {
            assert forall|j: int| 0 <= j < t.len() implies t[j] != '\n' by {
                assert(t[j] == v[start + j]);
            }
            lemma_text_line_end_at(t, 0, t.len() as int);
            assert(t.take(t.len() as int) =~= t);
            assert(t.skip(t.len() as int) =~= Seq::<char>::empty());
            assert(split_inclusive_nl(t) == seq![t] + split_inclusive_nl(Seq::<char>::empty()));
            assert(t =~= v.subrange(start as int, i as int));
            assert(strip_line_ending(t) == t);
        }
        let ghost old_pieces = pieces;
        let ghost old_spans = spans@;
        proof {
            pieces = pieces.push(t);
        }
        spans.push((start, s.len()));
        proof {
            assert forall|k: int| 0 <= k < spans@.len() implies spans@[k].0 <= spans@[k].1
                <= v.len() && v.subrange(spans@[k].0 as int, spans@[k].1 as int)
                == strip_line_ending(#[trigger] pieces[k]) by {
                if k < old_spans.len() {
                    assert(spans@[k] == old_spans[k]);
                    assert(pieces[k] == old_pieces[k]);
                } else {
                    assert(spans@[k] == (start, s.len()));
                    assert(pieces[k] == t);
                }
            }
        }
    } else {
        proof {
            assert(v.skip(start as int) =~= Seq::<char>::empty());
            assert(pieces =~= split_inclusive_nl(v));
        }
    }
    proof {
        assert(pieces =~= split_inclusive_nl(v));
        assert forall|k: int| 0 <= k < spans@.len() implies #[trigger] text_lines(s@)[k]
            == strip_line_ending(pieces[k]) by {}
    }
    spans
}

} // verus!
