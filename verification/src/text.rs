//! Text helpers: what the rest of the crate needs to know about strings,
//! stated over sequences of characters.

use vstd::prelude::*;
use vstd::utf8::*;
use vstd::string::*;

verus! {

/// The Unicode `White_Space` property.
pub open spec fn white_space(c: char) -> bool {
    ||| '\u{9}' <= c <= '\u{d}'
    ||| c == ' '
    ||| c == '\u{85}'
    ||| c == '\u{a0}'
    ||| c == '\u{1680}'
    ||| '\u{2000}' <= c <= '\u{200a}'
    ||| c == '\u{2028}'
    ||| c == '\u{2029}'
    ||| c == '\u{202f}'
    ||| c == '\u{205f}'
    ||| c == '\u{3000}'
}

/// Nothing but white space, or nothing at all.
pub open spec fn blank(s: Seq<char>) -> bool {
    forall|i: int| 0 <= i < s.len() ==> white_space(#[trigger] s[i])
}

/// An ASCII capital becomes the small letter; every other character stays.
pub open spec fn lower_char(c: char) -> char {
    if 'A' <= c <= 'Z' {
        ((c as u8) + 32) as u8 as char
    } else {
        c
    }
}

/// `s` with its ASCII capitals in small letters.
pub open spec fn lower(s: Seq<char>) -> Seq<char> {
    s.map_values(|c: char| lower_char(c))
}

/// Whether `c` has the Unicode `White_Space` property.
pub fn is_white_space(c: char) -> (r: bool)
    ensures
        r == white_space(c),
{
    ('\u{9}' <= c && c <= '\u{d}') || c == ' ' || c == '\u{85}' || c == '\u{a0}' || c == '\u{1680}'
        || ('\u{2000}' <= c && c <= '\u{200a}') || c == '\u{2028}' || c == '\u{2029}' || c
        == '\u{202f}' || c == '\u{205f}' || c == '\u{3000}'
}

/// `c` with an ASCII capital turned into the small letter.
pub fn lower_one(c: char) -> (r: char)
    ensures
        r == lower_char(c),
{
    if 'A' <= c && c <= 'Z' {
        ((c as u8) + 32) as char
    } else {
        c
    }
}

/// The characters of `s`.
pub fn chars_of(s: &str) -> (v: Vec<char>)
    ensures
        v@ == s@,
{
    let mut v: Vec<char> = Vec::new();
    for c in it: s.chars()
        invariant
            it.seq() == s@,
            v@ == it.seq().take(it.index() as int),
    {
        v.push(c);
    }
    v
}

/// Whether two texts are the same.
pub fn same_text(a: &str, b: &str) -> (r: bool)
    ensures
        r == (a@ == b@),
{
    let x = a.as_bytes();
    let y = b.as_bytes();
    proof {
        encode_utf8_decode_utf8(a@);
        encode_utf8_decode_utf8(b@);
    }
    if x.len() != y.len() {
        return false;
    }
    let mut i: usize = 0;
    while i < x.len()
        invariant
            x@ == encode_utf8(a@),
            y@ == encode_utf8(b@),
            x@.len() == y@.len(),
            i <= x@.len(),
            forall|j: int| 0 <= j < i ==> x@[j] == y@[j],
        decreases x@.len() - i,
    {
        if x[i] != y[i] {
            return false;
        }
        i = i + 1;
    }
    assert(x@ =~= y@);
    true
}

/// Whether `s` is blank.
pub fn is_blank(s: &str) -> (r: bool)
    ensures
        r == blank(s@),
{
    for c in it: s.chars()
        invariant
            it.seq() == s@,
            forall|i: int| 0 <= i < it.index() ==> white_space(#[trigger] s@[i]),
    {
        if !is_white_space(c) {
            assert(!white_space(s@[it.index() as int]));
            return false;
        }
    }
    true
}

/// Whether `s` begins with `prefix`.
pub fn starts_with(s: &str, prefix: &str) -> (r: bool)
    ensures
        r == prefix@.is_prefix_of(s@),
{
    let x = chars_of(s);
    let p = chars_of(prefix);
    if x.len() < p.len() {
        return false;
    }
    let mut i: usize = 0;
    while i < p.len()
        invariant
            x@ == s@,
            p@ == prefix@,
            p@.len() <= x@.len(),
            i <= p@.len(),
            forall|j: int| 0 <= j < i ==> x@[j] == p@[j],
        decreases p@.len() - i,
    {
        if x[i] != p[i] {
            assert(s@.subrange(0, prefix@.len() as int)[i as int] != prefix@[i as int]);
            return false;
        }
        i = i + 1;
    }
    true
}

/// What follows `prefix` in `s`, if `s` begins with it.
pub fn strip_prefix<'a>(s: &'a str, prefix: &str) -> (r: Option<&'a str>)
    ensures
        r.deep_view() == (if prefix@.is_prefix_of(s@) {
            Some(s@.skip(prefix@.len() as int))
        } else {
            None
        }),
{
    if !starts_with(s, prefix) {
        return None;
    }
    let from = prefix.unicode_len();
    let to = s.unicode_len();
    let rest = s.substring_char(from, to);
    assert(rest@ == s@.skip(prefix@.len() as int));
    Some(rest)
}

/// The pieces of `s` between the separators: one more than `s` holds
/// separators.
pub open spec fn pieces(s: Seq<char>, separator: char) -> Seq<Seq<char>>
    decreases s.len(),
{
    if s.len() == 0 {
        seq![Seq::empty()]
    } else {
        let before = pieces(s.drop_last(), separator);
        if s.last() == separator {
            before.push(Seq::empty())
        } else {
            before.drop_last().push(before.last().push(s.last()))
        }
    }
}

/// Cuts `s` at each `separator`.
pub fn split_at_each<'a>(s: &'a str, separator: char) -> (out: Vec<&'a str>)
    ensures
        out.deep_view() == pieces(s@, separator),
{
    let x = chars_of(s);
    let mut out: Vec<&'a str> = Vec::new();
    let mut start: usize = 0;
    let mut i: usize = 0;
    assert(s@.take(0) =~= Seq::empty());
    assert(out.deep_view().push(s@.subrange(0, 0)) =~= pieces(s@.take(0), separator));
    while i < x.len()
        invariant
            x@ == s@,
            start <= i <= x@.len(),
            out.deep_view().push(s@.subrange(start as int, i as int)) == pieces(
                s@.take(i as int),
                separator,
            ),
        decreases x@.len() - i,
    {
        let ghost next = s@.take(i + 1);
        let ghost before = out.deep_view().push(s@.subrange(start as int, i as int));
        assert(next.drop_last() =~= s@.take(i as int));
        assert(next.last() == s@[i as int]);
        if x[i] == separator {
            let piece = s.substring_char(start, i);
            out.push(piece);
            start = i + 1;
            assert(out.deep_view() =~= before);
            assert(s@.subrange(start as int, i + 1) =~= Seq::<char>::empty());
        } else {
            assert(before.drop_last() =~= out.deep_view());
            assert(s@.subrange(start as int, i + 1) =~= s@.subrange(start as int, i as int).push(
                s@[i as int],
            ));
        }
        i = i + 1;
    }
    let piece = s.substring_char(start, i);
    let ghost before = out.deep_view();
    out.push(piece);
    assert(s@.take(i as int) =~= s@);
    assert(out.deep_view() =~= before.push(piece@));
    out
}

/// The words of `s`: its longest runs of characters that are not white space,
/// in the order in which they stand.
pub open spec fn words(s: Seq<char>) -> Seq<Seq<char>>
    decreases s.len(),
{
    if s.len() == 0 {
        Seq::empty()
    } else {
        let before = words(s.drop_last());
        if white_space(s.last()) {
            before
        } else if s.len() >= 2 && !white_space(s[s.len() - 2]) {
            before.drop_last().push(before.last().push(s.last()))
        } else {
            before.push(seq![s.last()])
        }
    }
}

/// Cuts `s` into its words.
pub fn split_words(s: &str) -> (out: Vec<String>)
    ensures
        out.deep_view() == words(s@),
{
    let x = chars_of(s);
    let mut out: Vec<String> = Vec::new();
    let mut start: usize = 0;
    let mut inside = false;
    let mut i: usize = 0;
    assert(s@.take(0) =~= Seq::empty());
    assert(out.deep_view() =~= words(s@.take(0)));
    while i < x.len()
        invariant
            x@ == s@,
            start <= i <= x@.len(),
            inside == (i > 0 && !white_space(s@[i - 1])),
            inside ==> out.deep_view().push(s@.subrange(start as int, i as int)) == words(
                s@.take(i as int),
            ),
            !inside ==> out.deep_view() == words(s@.take(i as int)),
        decreases x@.len() - i,
    {
        let ghost next = s@.take(i + 1);
        let ghost before = out.deep_view();
        assert(next.drop_last() =~= s@.take(i as int));
        assert(next.last() == s@[i as int]);
        if is_white_space(x[i]) {
            if inside {
                let word = s.substring_char(start, i).to_owned();
                out.push(word);
                assert(out.deep_view() =~= before.push(word@));
            }
            inside = false;
        } else if inside {
            assert(next[next.len() - 2] == s@[i - 1]);
            assert(before.push(s@.subrange(start as int, i as int)).drop_last() =~= before);
            assert(s@.subrange(start as int, i + 1) =~= s@.subrange(start as int, i as int).push(
                s@[i as int],
            ));
        } else {
            start = i;
            inside = true;
            assert(s@.subrange(start as int, i + 1) =~= seq![s@[i as int]]);
        }
        i = i + 1;
    }
    assert(s@.take(i as int) =~= s@);
    if inside {
        let ghost before = out.deep_view();
        let word = s.substring_char(start, i).to_owned();
        out.push(word);
        assert(out.deep_view() =~= before.push(word@));
    }
    out
}

/// A digit below ten.
pub open spec fn digit(d: nat) -> char {
    (('0' as u8) + d) as u8 as char
}

/// `n` in decimal, without leading zeros.
pub open spec fn decimal(n: nat) -> Seq<char>
    decreases n,
{
    if n < 10 {
        seq![digit(n)]
    } else {
        decimal(n / 10).push(digit(n % 10))
    }
}

fn digit_text(d: u64) -> (r: &'static str)
    requires
        d < 10,
    ensures
        r@ == seq![digit(d as nat)],
{
    proof {
        reveal_strlit("0");
        reveal_strlit("1");
        reveal_strlit("2");
        reveal_strlit("3");
        reveal_strlit("4");
        reveal_strlit("5");
        reveal_strlit("6");
        reveal_strlit("7");
        reveal_strlit("8");
        reveal_strlit("9");
    }
    match d {
        0 => "0",
        1 => "1",
        2 => "2",
        3 => "3",
        4 => "4",
        5 => "5",
        6 => "6",
        7 => "7",
        8 => "8",
        _ => "9",
    }
}

/// `n` in decimal.
pub fn decimal_text(n: u64) -> (r: String)
    ensures
        r@ == decimal(n as nat),
    decreases n,
{
    if n < 10 {
        digit_text(n).to_owned()
    } else {
        let mut r = decimal_text(n / 10);
        r.append(digit_text(n % 10));
        r
    }
}

/// `s` without the run of `c` at its end.
pub open spec fn trimmed_end(s: Seq<char>, c: char) -> Seq<char>
    decreases s.len(),
{
    if s.len() > 0 && s.last() == c {
        trimmed_end(s.drop_last(), c)
    } else {
        s
    }
}

/// Takes the run of `c` off the end of `s`.
pub fn trim_end<'a>(s: &'a str, c: char) -> (r: &'a str)
    ensures
        r@ == trimmed_end(s@, c),
{
    let x = chars_of(s);
    let mut end: usize = x.len();
    assert(s@.take(end as int) =~= s@);
    while end > 0 && x[end - 1] == c
        invariant
            x@ == s@,
            end <= x@.len(),
            trimmed_end(s@, c) == trimmed_end(s@.take(end as int), c),
        decreases end,
    {
        assert(s@.take(end as int).drop_last() =~= s@.take(end - 1));
        end = end - 1;
    }
    let r = s.substring_char(0, end);
    assert(r@ == s@.take(end as int));
    r
}

/// Whether `text` is among `texts`.
pub fn holds_text(texts: &[String], text: &str) -> (r: bool)
    ensures
        r == texts.deep_view().contains(text@),
{
    let mut i: usize = 0;
    while i < texts.len()
        invariant
            i <= texts@.len(),
            forall|j: int| 0 <= j < i ==> texts.deep_view()[j] != text@,
        decreases texts@.len() - i,
    {
        if same_text(texts[i].as_str(), text) {
            assert(texts.deep_view()[i as int] == text@);
            return true;
        }
        i = i + 1;
    }
    false
}

/// A copy of a list of texts.
pub fn copy_texts(texts: &[String]) -> (r: Vec<String>)
    ensures
        r.deep_view() == texts.deep_view(),
{
    let mut r: Vec<String> = Vec::new();
    let mut i: usize = 0;
    while i < texts.len()
        invariant
            i <= texts@.len(),
            r@.len() == i,
            forall|j: int| 0 <= j < i ==> (#[trigger] r@[j])@ == texts@[j]@,
        decreases texts@.len() - i,
    {
        r.push(texts[i].clone());
        i = i + 1;
    }
    assert(r.deep_view() =~= texts.deep_view());
    r
}

/// A copy of an optional text.
pub fn copy_text(text: &Option<String>) -> (r: Option<String>)
    ensures
        r.deep_view() == text.deep_view(),
{
    match text {
        Some(t) => Some(t.clone()),
        None => None,
    }
}

/// `s` with its ASCII capitals turned into small letters.
pub fn lower_chars(s: &str) -> (v: Vec<char>)
    ensures
        v@ == lower(s@),
{
    let mut v: Vec<char> = Vec::new();
    for c in it: s.chars()
        invariant
            it.seq() == s@,
            v@ == lower(it.seq().take(it.index() as int)),
    {
        v.push(lower_one(c));
        assert(v@ =~= lower(it.seq().take(it.index() + 1)));
    }
    assert(s@.take(s@.len() as int) =~= s@);
    v
}

/// Pieces with the separator put back between them.
pub open spec fn joined(parts: Seq<Seq<char>>, separator: char) -> Seq<char>
    decreases parts.len(),
{
    if parts.len() == 0 {
        Seq::empty()
    } else if parts.len() == 1 {
        parts[0]
    } else {
        joined(parts.drop_last(), separator).push(separator) + parts.last()
    }
}

/// A text is its pieces joined, and no piece holds the separator.
pub proof fn pieces_rejoin(s: Seq<char>, separator: char)
    ensures
        pieces(s, separator).len() >= 1,
        joined(pieces(s, separator), separator) == s,
        forall|i: int|
            0 <= i < pieces(s, separator).len() ==> !(#[trigger] pieces(s, separator)[i]).contains(
                separator,
            ),
    decreases s.len(),
{
    let all = pieces(s, separator);
    if s.len() == 0 {
        assert(joined(all, separator) =~= s);
    } else {
        let before = pieces(s.drop_last(), separator);
        pieces_rejoin(s.drop_last(), separator);
        assert(s =~= s.drop_last().push(s.last()));
        if s.last() == separator {
            assert(all.drop_last() =~= before);
            assert(joined(all, separator) =~= s);
            assert forall|i: int| 0 <= i < all.len() implies !(#[trigger] all[i]).contains(
                separator,
            ) by {
                if i < before.len() {
                    assert(all[i] == before[i]);
                }
            }
        } else {
            let longer = before.last().push(s.last());
            assert(all.drop_last() =~= before.drop_last());
            if before.len() == 1 {
                assert(joined(all, separator) =~= s);
            } else {
                assert(joined(all, separator) =~= joined(before, separator).push(s.last()));
            }
            assert forall|i: int| 0 <= i < all.len() implies !(#[trigger] all[i]).contains(
                separator,
            ) by {
                if i < before.len() - 1 {
                    assert(all[i] == before[i]);
                } else {
                    assert(all[i] == longer);
                    assert(!before[before.len() - 1].contains(separator));
                    assert forall|k: int| 0 <= k < longer.len() implies longer[k] != separator by {
                        if k < before.last().len() {
                            assert(before.last()[k] == longer[k]);
                        }
                    }
                }
            }
        }
    }
}

/// A text in which no separator stands is one piece.
pub proof fn one_piece(s: Seq<char>, separator: char)
    requires
        !s.contains(separator),
    ensures
        pieces(s, separator) == seq![s],
    decreases s.len(),
{
    if s.len() > 0 {
        let init = s.drop_last();
        assert forall|i: int| 0 <= i < init.len() implies init[i] != separator by {
            assert(s[i] == init[i]);
        }
        assert(s[s.len() - 1] == s.last());
        one_piece(init, separator);
        assert(seq![init].drop_last() =~= Seq::empty());
        assert(s =~= init.push(s.last()));
    } else {
        assert(s =~= Seq::empty());
    }
    assert(pieces(s, separator) =~= seq![s]);
}

/// Words are not empty and hold no white space, and together they hold every
/// character of the text that is not white space, in order.
pub proof fn words_hold_what_is_not_blank(s: Seq<char>)
    ensures
        forall|i: int|
            0 <= i < words(s).len() ==> (#[trigger] words(s)[i]).len() > 0 && forall|k: int|
                0 <= k < words(s)[i].len() ==> !white_space(#[trigger] words(s)[i][k]),
        words(s).flatten() == s.filter(|c: char| !white_space(c)),
        s.len() > 0 && !white_space(s.last()) ==> words(s).len() > 0,
    decreases s.len(),
{
    let solid = |c: char| !white_space(c);
    reveal(Seq::filter);
    if s.len() == 0 {
        assert(words(s).flatten() =~= s.filter(solid));
    } else {
        let init = s.drop_last();
        let before = words(init);
        words_hold_what_is_not_blank(init);
        if !white_space(s.last()) {
            if s.len() >= 2 && !white_space(s[s.len() - 2]) {
                let longer = before.last().push(s.last());
                let rest = before.drop_last();
                assert(before =~= rest.push(before.last()));
                rest.lemma_flatten_push(before.last());
                rest.lemma_flatten_push(longer);
                assert(words(s).flatten() =~= before.flatten().push(s.last()));
                assert forall|i: int| 0 <= i < words(s).len() implies (#[trigger] words(s)[i]).len()
                    > 0 && forall|k: int|
                    0 <= k < words(s)[i].len() ==> !white_space(#[trigger] words(s)[i][k]) by {
                    if i < rest.len() {
                        assert(words(s)[i] == before[i]);
                    } else {
                        assert(words(s)[i] == longer);
                        assert(before[before.len() - 1] == before.last());
                        assert forall|k: int| 0 <= k < longer.len() implies !white_space(
                            #[trigger] longer[k],
                        ) by {
                            if k < before.last().len() {
                                assert(before[before.len() - 1][k] == longer[k]);
                            }
                        }
                    }
                }
            } else {
                before.lemma_flatten_push(seq![s.last()]);
                assert(words(s).flatten() =~= before.flatten().push(s.last()));
            }
        }
    }
}

/// Cutting takes a text apart where the separator stands: the pieces of two
/// texts with a separator between them are those of the one and then those of
/// the other.
pub proof fn pieces_of_both_sides(a: Seq<char>, b: Seq<char>, separator: char)
    ensures
        pieces(a.push(separator) + b, separator) == pieces(a, separator) + pieces(b, separator),
    decreases b.len(),
{
    let s = a.push(separator) + b;
    let left = pieces(a, separator);
    if b.len() == 0 {
        assert(s =~= a.push(separator));
        assert(s.drop_last() =~= a);
        assert(left + pieces(b, separator) =~= left.push(Seq::empty()));
    } else {
        let init = b.drop_last();
        let right = pieces(init, separator);
        assert(s.drop_last() =~= a.push(separator) + init);
        assert(s.last() == b.last());
        pieces_of_both_sides(a, init, separator);
        pieces_rejoin(init, separator);
        if b.last() == separator {
            assert((left + right).push(Seq::empty()) =~= left + right.push(Seq::empty()));
        } else {
            assert((left + right).last() == right.last());
            assert((left + right).drop_last() =~= left + right.drop_last());
            assert(pieces(s, separator) =~= left + pieces(b, separator));
        }
    }
}

/// Words are what white space parts: the words of two texts with a white space
/// between them are those of the one and then those of the other.
pub proof fn words_of_both_sides(a: Seq<char>, space: char, b: Seq<char>)
    requires
        white_space(space),
    ensures
        words(a.push(space) + b) == words(a) + words(b),
    decreases b.len(),
{
    let s = a.push(space) + b;
    if b.len() == 0 {
        assert(s =~= a.push(space));
        assert(s.drop_last() =~= a);
        assert(words(a) + words(b) =~= words(a));
    } else {
        let init = b.drop_last();
        assert(s.drop_last() =~= a.push(space) + init);
        assert(s.last() == b.last());
        words_of_both_sides(a, space, init);
        if !white_space(b.last()) {
            if b.len() >= 2 && !white_space(b[b.len() - 2]) {
                assert(s[s.len() - 2] == b[b.len() - 2]);
                words_hold_what_is_not_blank(init);
                assert((words(a) + words(init)).last() == words(init).last());
                assert(words(s) =~= words(a) + words(b));
            } else {
                if b.len() >= 2 {
                    assert(s[s.len() - 2] == b[b.len() - 2]);
                } else {
                    assert(s[s.len() - 2] == space);
                }
                assert(words(s) =~= words(a) + words(b));
            }
        }
    }
}

/// A text without white space is one word, and one of nothing else is none.
pub proof fn a_text_without_white_space_is_one_word(s: Seq<char>)
    ensures
        s.len() > 0 && (forall|i: int| 0 <= i < s.len() ==> !white_space(#[trigger] s[i])) ==> words(
            s,
        ) == seq![s],
        (forall|i: int| 0 <= i < s.len() ==> white_space(#[trigger] s[i])) <==> words(s).len() == 0,
    decreases s.len(),
{
    if s.len() > 0 {
        let init = s.drop_last();
        a_text_without_white_space_is_one_word(init);
        assert(s =~= init.push(s.last()));
        assert(forall|i: int| 0 <= i < init.len() ==> init[i] == s[i]);
        if forall|i: int| 0 <= i < s.len() ==> !white_space(#[trigger] s[i]) {
            assert(!white_space(s[s.len() - 1]));
            assert forall|i: int| 0 <= i < init.len() implies !white_space(#[trigger] init[i]) by {
                assert(!white_space(s[i]));
            }
            if init.len() > 0 {
                assert(!white_space(s[s.len() - 2]));
                assert(seq![init].drop_last() =~= Seq::empty());
                assert(words(s) =~= seq![init.push(s.last())]);
            } else {
                assert(words(init) =~= Seq::empty());
                assert(s =~= seq![s.last()]);
                assert(words(s) =~= seq![seq![s.last()]]);
            }
        }
        if words(s).len() == 0 {
            words_hold_what_is_not_blank(s);
            assert(white_space(s.last()));
            assert forall|i: int| 0 <= i < s.len() implies white_space(#[trigger] s[i]) by {
                if i < init.len() {
                    assert(white_space(init[i]));
                }
            }
        }
        if forall|i: int| 0 <= i < s.len() ==> white_space(#[trigger] s[i]) {
            assert(white_space(s[s.len() - 1]));
            assert forall|i: int| 0 <= i < init.len() implies white_space(#[trigger] init[i]) by {
                assert(white_space(s[i]));
            }
        }
    }
}

/// A text is blank exactly where it has no words.
pub proof fn blank_texts_have_no_words(s: Seq<char>)
    ensures
        blank(s) <==> words(s).len() == 0,
{
    a_text_without_white_space_is_one_word(s);
}

/// Which code points are white space.
pub proof fn white_space_by_code_point(c: char)
    ensures
        white_space(c) <==> ({
            let code = c as u32;
            ||| 9 <= code <= 13
            ||| code == 32
            ||| code == 133
            ||| code == 160
            ||| code == 5760
            ||| 8192 <= code <= 8202
            ||| code == 8232
            ||| code == 8233
            ||| code == 8239
            ||| code == 8287
            ||| code == 12288
        }),
{
}

/// Small letters: a capital from A to Z goes up by 32, and nothing else
/// changes.
pub proof fn capitals_go_up_by_32(s: Seq<char>, i: int)
    requires
        0 <= i < s.len(),
    ensures
        lower(s).len() == s.len(),
        lower(s)[i] as u32 == if 65 <= s[i] as u32 <= 90 {
            s[i] as u32 + 32
        } else {
            s[i] as u32 as int
        },
{
}

/// The number that a row of digits writes.
pub open spec fn number_written(digits: Seq<char>) -> int
    decreases digits.len(),
{
    if digits.len() == 0 {
        0
    } else {
        10 * number_written(digits.drop_last()) + (digits.last() as int - 48)
    }
}

/// A number in decimal is a row of digits that writes it, with no zero in
/// front of others.
pub proof fn decimal_writes_its_number(n: nat)
    ensures
        number_written(decimal(n)) == n,
        decimal(n).len() > 0,
        decimal(n).len() > 1 ==> decimal(n)[0] != '0',
        forall|i: int| 0 <= i < decimal(n).len() ==> '0' <= #[trigger] decimal(n)[i] <= '9',
    decreases n,
{
    let last = digit(n % 10);
    assert(last as int == 48 + n % 10);
    if n < 10 {
        assert(decimal(n).drop_last() =~= Seq::empty());
        assert(number_written(Seq::<char>::empty()) == 0);
    } else {
        decimal_writes_its_number(n / 10);
        assert(decimal(n).drop_last() =~= decimal(n / 10));
        assert(decimal(n)[0] == decimal(n / 10)[0]);
        if n / 10 < 10 {
            assert(decimal(n / 10) == seq![digit(n / 10)]);
            assert(digit(n / 10) as int == 48 + n / 10);
        } else {
            decimal_writes_its_number(n / 10 / 10);
        }
    }
}

/// What is taken off the end is a run of that character, and all of it.
pub proof fn trimming_takes_the_whole_run(s: Seq<char>, c: char)
    ensures
        trimmed_end(s, c).len() <= s.len(),
        trimmed_end(s, c) == s.take(trimmed_end(s, c).len() as int),
        forall|i: int| trimmed_end(s, c).len() <= i < s.len() ==> s[i] == c,
        trimmed_end(s, c).len() > 0 ==> trimmed_end(s, c).last() != c,
    decreases s.len(),
{
    if s.len() > 0 && s.last() == c {
        let init = s.drop_last();
        trimming_takes_the_whole_run(init, c);
        let end = trimmed_end(s, c).len() as int;
        assert(init.take(end) =~= s.take(end));
        assert forall|i: int| end <= i < s.len() implies s[i] == c by {
            if i < init.len() {
                assert(init[i] == c);
            }
        }
    } else {
        assert(s.take(s.len() as int) =~= s);
    }
}

} // verus!
