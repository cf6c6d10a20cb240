//! Character classes and conversions between strings and character vectors.

use vstd::prelude::*;

verus! {

/// ASCII punctuation: `!`..`/`, `:`..`@`, `[`..`` ` ``, `{`..`~`.
pub open spec fn is_ascii_punct(c: char) -> bool {
    ||| ('!' <= c && c <= '/')
    ||| (':' <= c && c <= '@')
    ||| ('[' <= c && c <= '`')
    ||| ('{' <= c && c <= '~')
}

/// Characters with the Unicode `White_Space` property.
pub open spec fn is_ws(c: char) -> bool {
    ||| ('\u{9}' <= c && c <= '\u{d}')
    ||| c == ' '
    ||| c == '\u{85}'
    ||| c == '\u{a0}'
    ||| c == '\u{1680}'
    ||| ('\u{2000}' <= c && c <= '\u{200a}')
    ||| c == '\u{2028}'
    ||| c == '\u{2029}'
    ||| c == '\u{202f}'
    ||| c == '\u{205f}'
    ||| c == '\u{3000}'
}

pub fn char_is_ascii_punct(c: char) -> (b: bool)
    ensures
        b == is_ascii_punct(c),
{
    ('!' <= c && c <= '/') || (':' <= c && c <= '@') || ('[' <= c && c <= '`') || ('{' <= c
        && c <= '~')
}

pub fn char_is_ws(c: char) -> (b: bool)
    ensures
        b == is_ws(c),
{
    ('\u{9}' <= c && c <= '\u{d}') || c == ' ' || c == '\u{85}' || c == '\u{a0}' || c
        == '\u{1680}' || ('\u{2000}' <= c && c <= '\u{200a}') || c == '\u{2028}' || c == '\u{2029}'
        || c == '\u{202f}' || c == '\u{205f}' || c == '\u{3000}'
}

/// The characters of `s`, in order.
pub fn chars_of(s: &str) -> (v: Vec<char>)
    ensures
        v@ == s@,
{
    let mut v: Vec<char> = Vec::new();
    for c in it: s.chars()
        invariant
            v@ == it.seq().take(it.index() as int),
            it.seq() == s@,
    {
        v.push(c);
    }
    v
}

/// Collects the characters into a `String` with std's
/// `FromIterator<char> for String`; the contract claims that the string holds
/// exactly these characters, in order.
#[verifier::external_body]
pub(crate) fn string_from_chars(v: &[char]) -> (s: String)
    ensures
        s@ == v@,
{
    v.iter().collect()
}

/// What std's `str::to_lowercase` gives for a string with the characters `s`
/// (the full Unicode lowercase mapping, final sigma included).
pub uninterp spec fn lowercase(s: Seq<char>) -> Seq<char>;

/// Calls std's `str::to_lowercase` on the string of the characters of `w`.
/// The contract only names the result: it is a function of the characters
/// alone; nothing else about the mapping is claimed.
#[verifier::external_body]
pub(crate) fn to_lowercase(w: &[char]) -> (r: Vec<char>)
    ensures
        r@ == lowercase(w@),
{
    let s: String = w.iter().collect();
    s.to_lowercase().chars().collect()
}

/// Whether two character sequences are equal.
pub fn chars_eq(a: &[char], b: &[char]) -> (r: bool)
    ensures
        r == (a@ == b@),
{
    if a.len() != b.len() {
        return false;
    }
    let mut i: usize = 0;
    while i < a.len()
        invariant
            a@.len() == b@.len(),
            i <= a@.len(),
            forall|j: int| 0 <= j < i ==> a@[j] == b@[j],
        decreases a@.len() - i,
    {
        if a[i] != b[i] {
            return false;
        }
        i = i + 1;
    }
    assert(a@ =~= b@);
    true
}

/// Views of a sequence of character vectors.
pub open spec fn views(v: Seq<Vec<char>>) -> Seq<Seq<char>> {
    v.map_values(|w: Vec<char>| w@)
}

/// `s` without its ASCII punctuation.
pub open spec fn strip_punct(s: Seq<char>) -> Seq<char>
    decreases s.len(),
{
    if s.len() == 0 {
        seq![]
    } else if is_ascii_punct(s.last()) {
        strip_punct(s.drop_last())
    } else {
        strip_punct(s.drop_last()).push(s.last())
    }
}

/// Left-to-right scan that cuts `s` at whitespace: the words completed so far
/// and the word being read.
pub open spec fn scan_words(s: Seq<char>) -> (Seq<Seq<char>>, Seq<char>)
    decreases s.len(),
{
    if s.len() == 0 {
        (seq![], seq![])
    } else {
        let (done, cur) = scan_words(s.drop_last());
        if is_ws(s.last()) {
            if cur.len() > 0 {
                (done.push(cur), seq![])
            } else {
                (done, seq![])
            }
        } else {
            (done, cur.push(s.last()))
        }
    }
}

/// The maximal runs of non-whitespace characters of `s` (`str::split_whitespace`).
pub open spec fn split_ws(s: Seq<char>) -> Seq<Seq<char>> {
    let (done, cur) = scan_words(s);
    if cur.len() > 0 {
        done.push(cur)
    } else {
        done
    }
}

/// Left-to-right scan that cuts `s` at every `sep`.
pub open spec fn scan_pieces(s: Seq<char>, sep: char) -> (Seq<Seq<char>>, Seq<char>)
    decreases s.len(),
{
    if s.len() == 0 {
        (seq![], seq![])
    } else {
        let (done, cur) = scan_pieces(s.drop_last(), sep);
        if s.last() == sep {
            (done.push(cur), seq![])
        } else {
            (done, cur.push(s.last()))
        }
    }
}

/// The pieces of `s` between occurrences of `sep`, empty pieces included
/// (`str::split` with a character).
pub open spec fn split_on(s: Seq<char>, sep: char) -> Seq<Seq<char>> {
    let (done, cur) = scan_pieces(s, sep);
    done.push(cur)
}

/// The words joined with single spaces.
pub open spec fn join_words(ws: Seq<Seq<char>>) -> Seq<char>
    decreases ws.len(),
{
    if ws.len() == 0 {
        seq![]
    } else if ws.len() == 1 {
        ws[0]
    } else {
        join_words(ws.drop_last()) + seq![' '] + ws.last()
    }
}

pub fn strip_ascii_punct(s: &[char]) -> (r: Vec<char>)
    ensures
        r@ == strip_punct(s@),
{
    let mut r: Vec<char> = Vec::new();
    let mut i: usize = 0;
    while i < s.len()
        invariant
            i <= s@.len(),
            r@ == strip_punct(s@.take(i as int)),
        decreases s@.len() - i,
    {
        assert(s@.take(i + 1).drop_last() =~= s@.take(i as int));
        if !char_is_ascii_punct(s[i]) {
            r.push(s[i]);
        }
        i = i + 1;
    }
    assert(s@.take(s@.len() as int) =~= s@);
    r
}

pub fn split_whitespace(s: &[char]) -> (r: Vec<Vec<char>>)
    ensures
        views(r@) == split_ws(s@),
{
    let mut done: Vec<Vec<char>> = Vec::new();
    let mut cur: Vec<char> = Vec::new();
    let mut i: usize = 0;
    while i < s.len()
        invariant
            i <= s@.len(),
            (views(done@), cur@) == scan_words(s@.take(i as int)),
        decreases s@.len() - i,
    {
        assert(s@.take(i + 1).drop_last() =~= s@.take(i as int));
        let c = s[i];
        if char_is_ws(c) {
            if cur.len() > 0 {
                let w = cur;
                cur = Vec::new();
                done.push(w);
                assert(views(done@) =~= views(done@.drop_last()).push(w@));
            } else {
                cur = Vec::new();
            }
        } else {
            cur.push(c);
        }
        i = i + 1;
    }
    assert(s@.take(s@.len() as int) =~= s@);
    if cur.len() > 0 {
        let ghost before = done@;
        done.push(cur);
        assert(views(done@) =~= views(before).push(done@.last()@));
    }
    done
}

pub fn split_on_char(s: &[char], sep: char) -> (r: Vec<Vec<char>>)
    ensures
        views(r@) == split_on(s@, sep),
{
    let mut done: Vec<Vec<char>> = Vec::new();
    let mut cur: Vec<char> = Vec::new();
    let mut i: usize = 0;
    while i < s.len()
        invariant
            i <= s@.len(),
            (views(done@), cur@) == scan_pieces(s@.take(i as int), sep),
        decreases s@.len() - i,
    {
        assert(s@.take(i + 1).drop_last() =~= s@.take(i as int));
        let c = s[i];
        if c == sep {
            let w = cur;
            cur = Vec::new();
            done.push(w);
            assert(views(done@) =~= views(done@.drop_last()).push(w@));
        } else {
            cur.push(c);
        }
        i = i + 1;
    }
    assert(s@.take(s@.len() as int) =~= s@);
    let ghost before = done@;
    done.push(cur);
    assert(views(done@) =~= views(before).push(done@.last()@));
    done
}

pub fn join_with_spaces(ws: &Vec<Vec<char>>) -> (r: Vec<char>)
    ensures
        r@ == join_words(views(ws@)),
{
    let mut r: Vec<char> = Vec::new();
    let mut i: usize = 0;
    while i < ws.len()
        invariant
            i <= ws@.len(),
            r@ == join_words(views(ws@).take(i as int)),
        decreases ws@.len() - i,
    {
        assert(views(ws@).take(i + 1).drop_last() =~= views(ws@).take(i as int));
        if i > 0 {
            r.push(' ');
        }
        let w = &ws[i];
        let mut k: usize = 0;
        let ghost base = r@;
        while k < w.len()
            invariant
                k <= w@.len(),
                r@ == base + w@.take(k as int),
            decreases w@.len() - k,
        {
            r.push(w[k]);
            k = k + 1;
            assert(r@ =~= base + w@.take(k as int));
        }
        assert(w@.take(w@.len() as int) =~= w@);
        assert(views(ws@).take(i + 1).last() == w@);
        if i == 0 {
            assert(r@ =~= join_words(views(ws@).take(1)));
        } else {
            assert(r@ =~= join_words(views(ws@).take(i as int)) + seq![' '] + w@);
        }
        i = i + 1;
    }
    assert(views(ws@).take(ws@.len() as int) =~= views(ws@));
    r
}

/// Append `piece` to `out`.
pub fn push_all(out: &mut Vec<char>, piece: &[char])
    ensures
        final(out)@ == old(out)@ + piece@,
{
    let mut i: usize = 0;
    while i < piece.len()
        invariant
            i <= piece@.len(),
            out@ == old(out)@ + piece@.take(i as int),
        decreases piece@.len() - i,
    {
        out.push(piece[i]);
        i = i + 1;
        assert(out@ =~= old(out)@ + piece@.take(i as int));
    }
    assert(piece@.take(piece@.len() as int) =~= piece@);
}

/// Append the characters of `s` to `out`.
pub fn push_str(out: &mut Vec<char>, s: &str)
    ensures
        final(out)@ == old(out)@ + s@,
{
    let cs = chars_of(s);
    push_all(out, cs.as_slice());
}

/// Decimal digits of `n`, without leading zeros.
pub open spec fn decimal(n: nat) -> Seq<char>
    decreases n,
{
    if n < 10 {
        seq![(('0' as nat) + n) as char]
    } else {
        decimal(n / 10).push((('0' as nat) + n % 10) as char)
    }
}

/// The decimal digits of `n`.
pub fn decimal_chars(n: u64) -> (r: Vec<char>)
    ensures
        r@ == decimal(n as nat),
    decreases n,
{
    if n < 10 {
        let mut r: Vec<char> = Vec::new();
        r.push(((('0' as u8) + (n as u8)) as char));
        r
    } else {
        let mut r = decimal_chars(n / 10);
        r.push(((('0' as u8) + ((n % 10) as u8)) as char));
        r
    }
}

/// Whether two strings hold the same characters.
pub fn str_eq(a: &str, b: &str) -> (r: bool)
    ensures
        r == (a@ == b@),
{
    let ac = chars_of(a);
    let bc = chars_of(b);
    chars_eq(ac.as_slice(), bc.as_slice())
}

/// No character of `s` is ASCII punctuation.
pub open spec fn no_punct(s: Seq<char>) -> bool {
    forall|i: int| 0 <= i < s.len() ==> !is_ascii_punct(#[trigger] s[i])
}

/// No character of `s` is whitespace.
pub open spec fn no_ws(s: Seq<char>) -> bool {
    forall|i: int| 0 <= i < s.len() ==> !is_ws(#[trigger] s[i])
}

/// A word as normalization cuts it: not empty, with no whitespace and no
/// ASCII punctuation.
pub open spec fn plain_word(w: Seq<char>) -> bool {
    &&& w.len() > 0
    &&& no_ws(w)
    &&& no_punct(w)
}

/// Stripping punctuation leaves none, and changes nothing where there is
/// none.
pub proof fn lemma_strip_punct_clean(s: Seq<char>)
    ensures
        no_punct(strip_punct(s)),
        no_punct(s) ==> strip_punct(s) == s,
    decreases s.len(),
{
    if s.len() > 0 {
        let d = s.drop_last();
        lemma_strip_punct_clean(d);
        if no_punct(s) {
            assert(no_punct(d)) by {
                assert forall|i: int| 0 <= i < d.len() implies !is_ascii_punct(#[trigger] d[i]) by {
                    assert(d[i] == s[i]);
                }
            }
            assert(!is_ascii_punct(s[s.len() - 1]));
            assert(d.push(s.last()) =~= s);
        }
        if !is_ascii_punct(s.last()) {
            let r = strip_punct(d).push(s.last());
            assert forall|i: int| 0 <= i < r.len() implies !is_ascii_punct(#[trigger] r[i]) by {
                if i < r.len() - 1 {
                    assert(r[i] == strip_punct(d)[i]);
                }
            }
        }
    }
}

/// Cutting a text without punctuation at whitespace gives plain words, and
/// leaves a word being read with no whitespace or punctuation.
proof fn lemma_scan_words_plain(s: Seq<char>)
    requires
        no_punct(s),
    ensures
        forall|k: int| 0 <= k < scan_words(s).0.len() ==> plain_word(#[trigger] scan_words(s).0[k]),
        no_ws(scan_words(s).1),
        no_punct(scan_words(s).1),
    decreases s.len(),
{
    if s.len() > 0 {
        let d = s.drop_last();
        assert(no_punct(d)) by {
            assert forall|i: int| 0 <= i < d.len() implies !is_ascii_punct(#[trigger] d[i]) by {
                assert(d[i] == s[i]);
            }
        }
        lemma_scan_words_plain(d);
        let (done, cur) = scan_words(d);
        assert(!is_ascii_punct(s[s.len() - 1]));
        if !is_ws(s.last()) {
            let c2 = cur.push(s.last());
            assert forall|i: int| 0 <= i < c2.len() implies !is_ws(#[trigger] c2[i]) by {
                if i < cur.len() {
                    assert(c2[i] == cur[i]);
                }
            }
            assert forall|i: int| 0 <= i < c2.len() implies !is_ascii_punct(#[trigger] c2[i]) by {
                if i < cur.len() {
                    assert(c2[i] == cur[i]);
                }
            }
        } else if cur.len() > 0 {
            let d2 = done.push(cur);
            assert forall|k: int| 0 <= k < d2.len() implies plain_word(#[trigger] d2[k]) by {
                if k < done.len() {
                    assert(d2[k] == done[k]);
                }
            }
        }
    }
}

/// The words `str::split_whitespace` gives of a text without punctuation are
/// plain words.
pub proof fn lemma_split_ws_plain(s: Seq<char>)
    requires
        no_punct(s),
    ensures
        forall|k: int| 0 <= k < split_ws(s).len() ==> plain_word(#[trigger] split_ws(s)[k]),
{
    lemma_scan_words_plain(s);
    let (done, cur) = scan_words(s);
    if cur.len() > 0 {
        let w = done.push(cur);
        assert forall|k: int| 0 <= k < w.len() implies plain_word(#[trigger] w[k]) by {
            if k < done.len() {
                assert(w[k] == done[k]);
            }
        }
    }
}

proof fn lemma_scan_append_word(s: Seq<char>, t: Seq<char>)
    requires
        no_ws(t),
    ensures
        scan_words(s + t) == (scan_words(s).0, scan_words(s).1 + t),
    decreases t.len(),
{
    if t.len() == 0 {
        assert(s + t =~= s);
        assert(scan_words(s).1 + t =~= scan_words(s).1);
    } else {
        let t1 = t.drop_last();
        assert(no_ws(t1)) by {
            assert forall|i: int| 0 <= i < t1.len() implies !is_ws(#[trigger] t1[i]) by {
                assert(t1[i] == t[i]);
            }
        }
        lemma_scan_append_word(s, t1);
        assert((s + t).drop_last() =~= s + t1);
        assert((s + t).last() == t[t.len() - 1]);
        assert((scan_words(s).1 + t1).push(t.last()) =~= scan_words(s).1 + t);
    }
}

proof fn lemma_scan_join(ws: Seq<Seq<char>>)
    requires
        ws.len() > 0,
        forall|k: int| 0 <= k < ws.len() ==> plain_word(#[trigger] ws[k]),
    ensures
        scan_words(join_words(ws)) == (ws.drop_last(), ws.last()),
    decreases ws.len(),
{
    let e = Seq::<char>::empty();
    if ws.len() == 1 {
        assert(plain_word(ws[0]));
        lemma_scan_append_word(e, ws[0]);
        assert(e + ws[0] =~= ws[0]);
        assert(scan_words(e).1 + ws[0] =~= ws[0]);
        assert(ws.drop_last() =~= Seq::<Seq<char>>::empty());
    } else {
        let p = ws.drop_last();
        assert forall|k: int| 0 <= k < p.len() implies plain_word(#[trigger] p[k]) by {
            assert(p[k] == ws[k]);
        }
        lemma_scan_join(p);
        let j = join_words(p);
        let js = j + seq![' '];
        assert(js.drop_last() =~= j);
        assert(js.last() == ' ');
        assert(plain_word(p[p.len() - 1]));
        assert(p.drop_last().push(p.last()) =~= p);
        assert(scan_words(js) == (p, e));
        assert(plain_word(ws[ws.len() - 1]));
        lemma_scan_append_word(js, ws.last());
        assert(e + ws.last() =~= ws.last());
        assert(join_words(ws) == js + ws.last());
    }
}

proof fn lemma_join_no_punct(ws: Seq<Seq<char>>)
    requires
        forall|k: int| 0 <= k < ws.len() ==> plain_word(#[trigger] ws[k]),
    ensures
        no_punct(join_words(ws)),
    decreases ws.len(),
{
    if ws.len() == 1 {
        assert(plain_word(ws[0]));
    } else if ws.len() > 1 {
        let p = ws.drop_last();
        assert forall|k: int| 0 <= k < p.len() implies plain_word(#[trigger] p[k]) by {
            assert(p[k] == ws[k]);
        }
        lemma_join_no_punct(p);
        let j = join_words(p);
        let w = ws.last();
        assert(plain_word(ws[ws.len() - 1]));
        let r = j + seq![' '] + w;
        assert forall|i: int| 0 <= i < r.len() implies !is_ascii_punct(#[trigger] r[i]) by {
            if i < j.len() {
                assert(r[i] == j[i]);
            } else if i == j.len() {
                assert(r[i] == ' ');
            } else {
                assert(r[i] == w[i - j.len() - 1]);
            }
        }
    }
}

/// Plain words joined with single spaces split back, at whitespace, into
/// exactly those words, and hold no punctuation to strip.
pub proof fn law_join_then_split(ws: Seq<Seq<char>>)
    requires
        forall|k: int| 0 <= k < ws.len() ==> plain_word(#[trigger] ws[k]),
    ensures
        strip_punct(join_words(ws)) == join_words(ws),
        split_ws(join_words(ws)) == ws,
{
    lemma_join_no_punct(ws);
    lemma_strip_punct_clean(join_words(ws));
    if ws.len() > 0 {
        lemma_scan_join(ws);
        assert(plain_word(ws[ws.len() - 1]));
        assert(ws.drop_last().push(ws.last()) =~= ws);
    }
}

} // verus!
