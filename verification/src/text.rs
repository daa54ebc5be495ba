//! Text helpers shared by every module: character sequences, ASCII case folding,
//! trimming, joining and decimal numbers.
use vstd::prelude::*;
use vstd::string::*;

verus! {

/// The character sequences of a list of strings.
pub open spec fn texts(v: Seq<String>) -> Seq<Seq<char>> {
    v.map_values(|s: String| s@)
}

/// `String::push` of std appends one character.
pub assume_specification[ String::push ](s: &mut String, ch: char)
    ensures
        final(s)@ == old(s)@.push(ch),
;

/// Whether a character has the Unicode White_Space property.
pub open spec fn is_white(c: char) -> bool {
    ||| '\u{9}' <= c && c <= '\u{d}'
    ||| c == ' '
    ||| c == '\u{85}'
    ||| c == '\u{a0}'
    ||| c == '\u{1680}'
    ||| '\u{2000}' <= c && c <= '\u{200a}'
    ||| c == '\u{2028}'
    ||| c == '\u{2029}'
    ||| c == '\u{202f}'
    ||| c == '\u{205f}'
    ||| c == '\u{3000}'
}

/// `char::is_whitespace` of std tells whether a character has the Unicode White_Space property.
pub assume_specification[ char::is_whitespace ](c: char) -> (b: bool)
    ensures
        b == is_white(c),
;

/// What `str::to_lowercase` of std makes of a text.
pub uninterp spec fn lowercase(s: Seq<char>) -> Seq<char>;

/// `str::to_lowercase` of std maps a text to its Unicode lower case; the same text always
/// gives the same result.
pub assume_specification[ str::to_lowercase ](s: &str) -> (r: String)
    ensures
        r@ == lowercase(s@),
;

/// The characters of a string, in order.
pub fn chars_of(s: &str) -> (r: Vec<char>)
    ensures
        r@ == s@,
{
    let mut r: Vec<char> = Vec::new();
    for c in it: s.chars()
        invariant
            it.seq() == s@,
            r@ == s@.take(it.index() as int),
    {
        r.push(c);
        assert(r@ =~= s@.take(it.index() + 1));
    }
    assert(s@.take(s@.len() as int) =~= s@);
    r
}

/// The string made of the characters `v[from..to]`.
pub fn text_of(v: &Vec<char>, from: usize, to: usize) -> (r: String)
    requires
        from <= to <= v@.len(),
    ensures
        r@ == v@.subrange(from as int, to as int),
{
    let mut r: String = String::new();
    let mut i: usize = from;
    while i < to
        invariant
            from <= i <= to <= v@.len(),
            r@ == v@.subrange(from as int, i as int),
        decreases to - i,
    {
        r.push(v[i]);
        i += 1;
        assert(r@ =~= v@.subrange(from as int, i as int));
    }
    r
}

/// Whether two texts are equal, character by character.
pub fn same_text(a: &str, b: &str) -> (r: bool)
    ensures
        r == (a@ == b@),
{
    let x: Vec<char> = chars_of(a);
    let y: Vec<char> = chars_of(b);
    if x.len() != y.len() {
        return false;
    }
    let mut i: usize = 0;
    while i < x.len()
        invariant
            x@ == a@,
            y@ == b@,
            x@.len() == y@.len(),
            i <= x@.len(),
            x@.take(i as int) == y@.take(i as int),
        decreases x@.len() - i,
    {
        if x[i] != y[i] {
            return false;
        }
        i += 1;
        assert(x@.take(i as int) =~= x@.take(i - 1).push(x@[i - 1]));
        assert(y@.take(i as int) =~= y@.take(i - 1).push(y@[i - 1]));
    }
    assert(x@.take(x@.len() as int) =~= x@);
    assert(y@.take(y@.len() as int) =~= y@);
    true
}

/// The ASCII lower case of one character; any other character stands for itself.
pub open spec fn lower(c: char) -> char {
    if 'A' <= c && c <= 'Z' {
        ((c as u8) + 32) as u8 as char
    } else {
        c
    }
}

/// A text with its ASCII letters in lower case.
pub open spec fn lowered(s: Seq<char>) -> Seq<char> {
    s.map_values(|c: char| lower(c))
}

/// Equality of texts up to the case of ASCII letters.
pub open spec fn same_ci(a: Seq<char>, b: Seq<char>) -> bool {
    lowered(a) == lowered(b)
}

pub fn lower_char(c: char) -> (r: char)
    ensures
        r == lower(c),
{
    if 'A' <= c && c <= 'Z' {
        ((c as u8) + 32) as char
    } else {
        c
    }
}

/// Whether two texts are equal up to the case of ASCII letters.
pub fn eq_ignore_case(a: &str, b: &str) -> (r: bool)
    ensures
        r == same_ci(a@, b@),
{
    let x: Vec<char> = chars_of(a);
    let y: Vec<char> = chars_of(b);
    if x.len() != y.len() {
        assert(lowered(a@).len() != lowered(b@).len());
        return false;
    }
    let mut i: usize = 0;
    while i < x.len()
        invariant
            x@ == a@,
            y@ == b@,
            x@.len() == y@.len(),
            i <= x@.len(),
            forall|j: int| 0 <= j < i ==> lower(#[trigger] x@[j]) == lower(y@[j]),
        decreases x@.len() - i,
    {
        if lower_char(x[i]) != lower_char(y[i]) {
            assert(lowered(a@)[i as int] != lowered(b@)[i as int]);
            return false;
        }
        i += 1;
    }
    assert(lowered(a@) =~= lowered(b@));
    true
}

/// A text without its leading whitespace.
pub open spec fn trim_start_of(s: Seq<char>) -> Seq<char>
    decreases s.len(),
{
    if s.len() > 0 && is_white(s[0]) {
        trim_start_of(s.subrange(1, s.len() as int))
    } else {
        s
    }
}

/// A text without its trailing whitespace.
pub open spec fn trim_end_of(s: Seq<char>) -> Seq<char>
    decreases s.len(),
{
    if s.len() > 0 && is_white(s[s.len() - 1]) {
        trim_end_of(s.subrange(0, s.len() - 1))
    } else {
        s
    }
}

/// A text without its leading and trailing whitespace.
pub open spec fn trimmed(s: Seq<char>) -> Seq<char> {
    trim_end_of(trim_start_of(s))
}

/// A text without its leading whitespace.
pub fn trim_start(s: &str) -> (r: String)
    ensures
        r@ == trim_start_of(s@),
{
    let v: Vec<char> = chars_of(s);
    let mut i: usize = 0;
    assert(s@.subrange(0, s@.len() as int) =~= s@);
    while i < v.len() && v[i].is_whitespace()
        invariant
            v@ == s@,
            i <= v@.len(),
            trim_start_of(s@.subrange(i as int, s@.len() as int)) == trim_start_of(s@),
        decreases v@.len() - i,
    {
        proof {
            let rest = s@.subrange(i as int, s@.len() as int);
            assert(rest.subrange(1, rest.len() as int) =~= s@.subrange(i + 1, s@.len() as int));
        }
        i += 1;
    }
    text_of(&v, i, v.len())
}

/// A text without its leading and trailing whitespace.
pub fn trim(s: &str) -> (r: String)
    ensures
        r@ == trimmed(s@),
{
    let started: String = trim_start(s);
    let v: Vec<char> = chars_of(&started);
    let mut i: usize = v.len();
    assert(v@.subrange(0, v@.len() as int) =~= v@);
    while i > 0 && v[i - 1].is_whitespace()
        invariant
            v@ == trim_start_of(s@),
            i <= v@.len(),
            trim_end_of(v@.subrange(0, i as int)) == trim_end_of(v@),
        decreases i,
    {
        proof {
            let rest = v@.subrange(0, i as int);
            assert(rest.subrange(0, rest.len() - 1) =~= v@.subrange(0, i - 1));
        }
        i -= 1;
    }
    text_of(&v, 0, i)
}

/// Whether trimming a text leaves nothing.
pub fn is_blank(s: &str) -> (r: bool)
    ensures
        r == (trimmed(s@).len() == 0),
{
    trim(s).as_str().is_empty()
}

/// The decimal digit for a number below ten.
pub open spec fn digit(n: nat) -> char {
    (48 + n % 10) as u8 as char
}

/// The decimal notation of a number.
pub open spec fn decimal_of(n: nat) -> Seq<char>
    decreases n,
{
    if n < 10 {
        seq![digit(n)]
    } else {
        decimal_of(n / 10).push(digit(n))
    }
}

/// The decimal notation of a number.
pub fn decimal(n: u64) -> (r: String)
    ensures
        r@ == decimal_of(n as nat),
    decreases n,
{
    let d: char = (48u8 + (n % 10) as u8) as char;
    if n < 10 {
        let mut r: String = String::new();
        r.push(d);
        assert(r@ =~= seq![digit(n as nat)]);
        r
    } else {
        let mut r: String = decimal(n / 10);
        r.push(d);
        r
    }
}

/// Texts joined by a separator.
pub open spec fn joined(v: Seq<Seq<char>>, sep: Seq<char>) -> Seq<char>
    decreases v.len(),
{
    if v.len() == 0 {
        Seq::empty()
    } else if v.len() == 1 {
        v[0]
    } else {
        joined(v.drop_last(), sep) + sep + v.last()
    }
}

/// Texts joined by a separator.
pub fn join(v: &Vec<String>, sep: &str) -> (r: String)
    ensures
        r@ == joined(texts(v@), sep@),
{
    let mut r: String = String::new();
    let mut i: usize = 0;
    while i < v.len()
        invariant
            i <= v@.len(),
            r@ == joined(texts(v@).take(i as int), sep@),
        decreases v@.len() - i,
    {
        if i > 0 {
            r.append(sep);
        }
        r.append(&v[i]);
        i += 1;
        proof {
            let t = texts(v@).take(i as int);
            assert(t.drop_last() =~= texts(v@).take(i - 1));
            assert(t.last() == v@[i - 1]@);
            if i == 1 {
                assert(Seq::<char>::empty() + v@[0]@ =~= v@[0]@);
            }
        }
    }
    assert(texts(v@).take(v@.len() as int) =~= texts(v@));
    r
}

/// Whether some text of the list equals `s`.
pub fn contains_text(v: &Vec<String>, s: &str) -> (r: bool)
    ensures
        r == texts(v@).contains(s@),
{
    let mut i: usize = 0;
    while i < v.len()
        invariant
            i <= v@.len(),
            forall|j: int| 0 <= j < i ==> texts(v@)[j] != s@,
        decreases v@.len() - i,
    {
        if same_text(&v[i], s) {
            assert(texts(v@)[i as int] == s@);
            return true;
        }
        i += 1;
    }
    false
}

/// Whether some text of the list equals `s` up to ASCII case.
pub open spec fn has_ci(v: Seq<Seq<char>>, s: Seq<char>) -> bool {
    exists|i: int| 0 <= i < v.len() && same_ci(#[trigger] v[i], s)
}

/// Whether some text of the list equals `s` up to ASCII case.
pub fn contains_ignore_case(v: &Vec<String>, s: &str) -> (r: bool)
    ensures
        r == has_ci(texts(v@), s@),
{
    let mut i: usize = 0;
    while i < v.len()
        invariant
            i <= v@.len(),
            forall|j: int| 0 <= j < i ==> !same_ci(#[trigger] texts(v@)[j], s@),
        decreases v@.len() - i,
    {
        if eq_ignore_case(&v[i], s) {
            assert(same_ci(texts(v@)[i as int], s@));
            return true;
        }
        i += 1;
    }
    false
}

/// A copy of a list of texts.
pub fn copy_texts(v: &Vec<String>) -> (r: Vec<String>)
    ensures
        r@ == v@,
{
    let mut r: Vec<String> = Vec::new();
    let mut i: usize = 0;
    while i < v.len()
        invariant
            i <= v@.len(),
            r@ == v@.take(i as int),
        decreases v@.len() - i,
    {
        r.push(v[i].clone());
        i += 1;
        assert(r@ =~= v@.take(i as int));
    }
    assert(v@.take(v@.len() as int) =~= v@);
    r
}

/// The text `a` followed by the text `b`.
pub fn concat2(a: &str, b: &str) -> (r: String)
    ensures
        r@ == a@ + b@,
{
    let mut r: String = String::new();
    r.append(a);
    r.append(b);
    assert(r@ =~= a@ + b@);
    r
}

/// The texts `a`, `b` and `c`, one after the other.
pub fn concat3(a: &str, b: &str, c: &str) -> (r: String)
    ensures
        r@ == a@ + b@ + c@,
{
    let mut r: String = concat2(a, b);
    r.append(c);
    r
}

/// The number of lines of a text: a line ends at a line feed or at the end of the text, and the
/// last line feed opens no further line.
pub open spec fn lines_in(s: Seq<char>) -> nat
    decreases s.len(),
{
    if s.len() == 0 {
        0
    } else if s.len() == 1 || s[s.len() - 2] == '\n' {
        lines_in(s.drop_last()) + 1
    } else {
        lines_in(s.drop_last())
    }
}

/// The number of lines of a text.
pub fn line_count(s: &str) -> (r: usize)
    ensures
        r == lines_in(s@),
        r <= s@.len(),
{
    let v: Vec<char> = chars_of(s);
    let mut n: usize = 0;
    let mut i: usize = 0;
    while i < v.len()
        invariant
            v@ == s@,
            i <= v@.len(),
            n == lines_in(s@.take(i as int)),
            n <= i,
        decreases v@.len() - i,
    {
        if i == 0 || v[i - 1] == '\n' {
            n += 1;
        }
        i += 1;
        assert(s@.take(i as int).drop_last() =~= s@.take(i - 1));
    }
    assert(s@.take(s@.len() as int) =~= s@);
    n
}

/// The pieces of a text between the separators `sep`; a text without one is its only piece.
pub open spec fn pieces(s: Seq<char>, sep: char) -> Seq<Seq<char>>
    decreases s.len(),
{
    if s.len() == 0 {
        seq![Seq::<char>::empty()]
    } else {
        let before = pieces(s.drop_last(), sep);
        if s.last() == sep {
            before.push(Seq::empty())
        } else {
            before.drop_last().push(before.last().push(s.last()))
        }
    }
}

/// There is always a piece.
pub proof fn pieces_nonempty(s: Seq<char>, sep: char)
    ensures
        pieces(s, sep).len() >= 1,
        pieces(s, sep).len() <= s.len() + 1,
    decreases s.len(),
{
    if s.len() > 0 {
        pieces_nonempty(s.drop_last(), sep);
    }
}

/// The pieces of a text between the separators `sep`.
pub fn split(s: &str, sep: char) -> (r: Vec<String>)
    ensures
        texts(r@) == pieces(s@, sep),
        r@.len() >= 1,
{
    let v: Vec<char> = chars_of(s);
    let mut done: Vec<String> = Vec::new();
    let mut cur: String = String::new();
    let mut i: usize = 0;
    assert(texts(done@).push(cur@) =~= pieces(s@.take(0), sep));
    while i < v.len()
        invariant
            v@ == s@,
            i <= v@.len(),
            texts(done@).push(cur@) == pieces(s@.take(i as int), sep),
        decreases v@.len() - i,
    {
        let c: char = v[i];
        proof {
            assert(s@.take(i + 1).drop_last() =~= s@.take(i as int));
            let before = pieces(s@.take(i as int), sep);
            assert(before.last() == cur@);
            assert(before.drop_last() =~= texts(done@));
        }
        if c == sep {
            let ghost d0 = done@;
            let ghost c0 = cur@;
            done.push(cur);
            assert(texts(done@) =~= texts(d0).push(c0));
            cur = String::new();
        } else {
            cur.push(c);
        }
        i += 1;
    }
    let ghost d0 = done@;
    let ghost c0 = cur@;
    done.push(cur);
    assert(texts(done@) =~= texts(d0).push(c0));
    assert(s@.take(s@.len() as int) =~= s@);
    done
}

/// No piece holds the separator, and each of its characters comes from the text.
pub proof fn pieces_chars(s: Seq<char>, sep: char, k: int, j: int)
    requires
        0 <= k < pieces(s, sep).len(),
        0 <= j < pieces(s, sep)[k].len(),
    ensures
        pieces(s, sep)[k][j] != sep,
        s.contains(pieces(s, sep)[k][j]),
    decreases s.len(),
{
    if s.len() > 0 {
        let t = s.drop_last();
        let before = pieces(t, sep);
        pieces_nonempty(t, sep);
        if k < before.len() && j < before[k].len() {
            pieces_chars(t, sep, k, j);
            let c = before[k][j];
            let at = choose|i: int| 0 <= i < t.len() && t[i] == c;
            assert(s[at] == c);
        } else {
            assert(s[s.len() - 1] == s.last());
        }
    }
}

/// A separator and a text without one add one piece.
pub proof fn pieces_of_line(a: Seq<char>, b: Seq<char>, sep: char)
    requires
        !b.contains(sep),
    ensures
        pieces(a + seq![sep] + b, sep) == pieces(a, sep).push(b),
    decreases b.len(),
{
    let s = a + seq![sep] + b;
    pieces_nonempty(a, sep);
    if b.len() == 0 {
        assert(s.drop_last() =~= a);
        assert(s.last() == sep);
        assert(b =~= Seq::<char>::empty());
    } else {
        let c = b.drop_last();
        assert(!c.contains(sep)) by {
            if c.contains(sep) {
                let i = choose|i: int| 0 <= i < c.len() && c[i] == sep;
                assert(b[i] == sep);
            }
        }
        pieces_of_line(a, c, sep);
        assert(s.drop_last() =~= a + seq![sep] + c);
        assert(b[b.len() - 1] == b.last());
        assert(s.last() == b.last());
        let before = pieces(a, sep).push(c);
        assert(before.drop_last() =~= pieces(a, sep));
        assert(c.push(b.last()) =~= b);
        assert(pieces(s, sep) =~= pieces(a, sep).push(b));
    }
}

/// A text without the separator is its only piece.
pub proof fn pieces_alone(s: Seq<char>, sep: char)
    requires
        !s.contains(sep),
    ensures
        pieces(s, sep) == seq![s],
    decreases s.len(),
{
    if s.len() == 0 {
        assert(s =~= Seq::<char>::empty());
    } else {
        let t = s.drop_last();
        assert(!t.contains(sep)) by {
            if t.contains(sep) {
                let i = choose|i: int| 0 <= i < t.len() && t[i] == sep;
                assert(s[i] == sep);
            }
        }
        pieces_alone(t, sep);
        assert(s[s.len() - 1] == s.last());
        assert(t.push(s.last()) =~= s);
        assert(pieces(s, sep) =~= seq![s]);
    }
}

/// Pieces without the separator, joined by it, are split into the same pieces.
pub proof fn pieces_of_joined(v: Seq<Seq<char>>, sep: char)
    requires
        v.len() > 0,
        forall|i: int| 0 <= i < v.len() ==> !(#[trigger] v[i]).contains(sep),
    ensures
        pieces(joined(v, seq![sep]), sep) == v,
    decreases v.len(),
{
    assert(v.last() == v[v.len() - 1]);
    if v.len() == 1 {
        pieces_alone(v[0], sep);
        assert(seq![v[0]] =~= v);
    } else {
        let head = v.drop_last();
        assert forall|i: int| 0 <= i < head.len() implies !(#[trigger] head[i]).contains(sep) by {
            assert(head[i] == v[i]);
        }
        pieces_of_joined(head, sep);
        pieces_of_line(joined(head, seq![sep]), v.last(), sep);
        assert(head.push(v.last()) =~= v);
    }
}

/// Split pieces, joined again, are the text.
pub proof fn joined_pieces(s: Seq<char>, sep: char)
    ensures
        joined(pieces(s, sep), seq![sep]) == s,
    decreases s.len(),
{
    pieces_nonempty(s, sep);
    if s.len() == 0 {
        assert(s =~= Seq::<char>::empty());
    } else {
        let t = s.drop_last();
        let before = pieces(t, sep);
        let all = pieces(s, sep);
        pieces_nonempty(t, sep);
        joined_pieces(t, sep);
        assert(t.push(s.last()) =~= s);
        if s.last() == sep {
            assert(all.drop_last() =~= before);
            assert(all.last() =~= Seq::<char>::empty());
            assert(t + seq![sep] + all.last() =~= s);
        } else {
            assert(all.drop_last() =~= before.drop_last());
            assert(all.last() == before.last().push(s.last()));
            if before.len() == 1 {
                assert(before[0] == before.last());
                assert(all[0] == all.last());
            } else {
                let head = joined(before.drop_last(), seq![sep]) + seq![sep];
                assert(head + all.last() =~= (head + before.last()).push(s.last()));
            }
        }
    }
}

/// Names with one more, unless it is among them up to ASCII case.
pub open spec fn with_name(names: Seq<Seq<char>>, name: Seq<char>) -> Seq<Seq<char>> {
    if has_ci(names, name) {
        names
    } else {
        names.push(name)
    }
}

/// Adds a name to a list, unless it is there up to ASCII case.
pub fn add_name(names: &mut Vec<String>, name: &str)
    ensures
        texts(final(names)@) == with_name(texts(old(names)@), name@),
{
    if !contains_ignore_case(names, name) {
        names.push(name.to_owned());
        assert(texts(names@) =~= texts(old(names)@).push(name@));
    }
}

/// The texts of a list of strings are the strings' characters, one by one.
pub proof fn texts_are_the_strings(v: Seq<String>)
    ensures
        texts(v).len() == v.len(),
        forall|i: int| 0 <= i < v.len() ==> #[trigger] texts(v)[i] == v[i]@,
{
}

/// Whether two characters are the same letter, one a capital.
pub open spec fn other_case(a: char, b: char) -> bool {
    'A' <= a && a <= 'Z' && b as int == a as int + ('a' as int - 'A' as int)
}

/// Two texts are equal up to case exactly when they are as long, and at each place have the same
/// character or the two cases of one ASCII letter.
pub proof fn case_is_all_that_may_differ(a: Seq<char>, b: Seq<char>)
    ensures
        same_ci(a, b) <==> a.len() == b.len() && forall|i: int|
            0 <= i < a.len() ==> #[trigger] a[i] == b[i] || other_case(a[i], b[i]) || other_case(
                b[i],
                a[i],
            ),
{
    let x = lowered(a);
    let y = lowered(b);
    if same_ci(a, b) {
        assert(x.len() == a.len() && y.len() == b.len());
        assert forall|i: int| 0 <= i < a.len() implies #[trigger] a[i] == b[i] || other_case(
            a[i],
            b[i],
        ) || other_case(b[i], a[i]) by {
            assert(x[i] == lower(a[i]));
            assert(y[i] == lower(b[i]));
        }
    } else if a.len() == b.len() {
        if forall|i: int|
            0 <= i < a.len() ==> #[trigger] a[i] == b[i] || other_case(a[i], b[i]) || other_case(
                b[i],
                a[i],
            ) {
            assert forall|i: int| 0 <= i < x.len() implies x[i] == y[i] by {
                assert(a[i] == b[i] || other_case(a[i], b[i]) || other_case(b[i], a[i]));
            }
            assert(x =~= y);
        }
    }
}

/// Equality up to case is an equivalence.
pub proof fn equality_up_to_case(a: Seq<char>, b: Seq<char>, c: Seq<char>)
    ensures
        same_ci(a, a),
        same_ci(a, b) ==> same_ci(b, a),
        same_ci(a, b) && same_ci(b, c) ==> same_ci(a, c),
{
}

/// A name is found in a list exactly when some text of the list differs from it in case alone.
pub proof fn names_are_found_in_any_case(v: Seq<Seq<char>>, w: Seq<Seq<char>>, s: Seq<char>)
    ensures
        has_ci(v, s) <==> exists|t: Seq<char>| #[trigger] v.contains(t) && same_ci(t, s),
        v.contains(s) ==> has_ci(v, s),
        has_ci(v + w, s) <==> has_ci(v, s) || has_ci(w, s),
        !has_ci(Seq::<Seq<char>>::empty(), s),
{
    if v.contains(s) {
        let i = choose|i: int| 0 <= i < v.len() && v[i] == s;
        assert(same_ci(v[i], s));
    }
    if exists|t: Seq<char>| #[trigger] v.contains(t) && same_ci(t, s) {
        let t = choose|t: Seq<char>| #[trigger] v.contains(t) && same_ci(t, s);
        let i = choose|i: int| 0 <= i < v.len() && v[i] == t;
        assert(same_ci(v[i], s));
    }
    let all = v + w;
    if has_ci(all, s) {
        let i = choose|i: int| 0 <= i < all.len() && same_ci(#[trigger] all[i], s);
        if i < v.len() {
            assert(same_ci(v[i], s));
        } else {
            assert(same_ci(w[i - v.len()], s));
        }
    }
    if has_ci(v, s) {
        let i = choose|i: int| 0 <= i < v.len() && same_ci(#[trigger] v[i], s);
        assert(same_ci(all[i], s));
        assert(v.contains(v[i]));
    }
    if has_ci(w, s) {
        let i = choose|i: int| 0 <= i < w.len() && same_ci(#[trigger] w[i], s);
        assert(same_ci(all[v.len() + i], s));
    }
}

proof fn start_trimmed(s: Seq<char>) -> (from: int)
    ensures
        0 <= from <= s.len(),
        trim_start_of(s) == s.skip(from),
        forall|i: int| 0 <= i < from ==> is_white(#[trigger] s[i]),
        from < s.len() ==> !is_white(s[from]),
    decreases s.len(),
{
    if s.len() > 0 && is_white(s[0]) {
        let rest = s.subrange(1, s.len() as int);
        let from = start_trimmed(rest);
        assert(rest.skip(from) =~= s.skip(from + 1));
        assert forall|i: int| 0 <= i < from + 1 implies is_white(#[trigger] s[i]) by {
            if i > 0 {
                assert(rest[i - 1] == s[i]);
            }
        }
        from + 1
    } else {
        assert(s.skip(0) =~= s);
        0
    }
}

proof fn end_trimmed(s: Seq<char>) -> (to: int)
    ensures
        0 <= to <= s.len(),
        trim_end_of(s) == s.take(to),
        forall|i: int| to <= i < s.len() ==> is_white(#[trigger] s[i]),
        to > 0 ==> !is_white(s[to - 1]),
    decreases s.len(),
{
    if s.len() > 0 && is_white(s[s.len() - 1]) {
        let rest = s.subrange(0, s.len() - 1);
        let to = end_trimmed(rest);
        assert(rest.take(to) =~= s.take(to));
        assert forall|i: int| to <= i < s.len() implies is_white(#[trigger] s[i]) by {
            if i < s.len() - 1 {
                assert(rest[i] == s[i]);
            }
        }
        to
    } else {
        assert(s.take(s.len() as int) =~= s);
        s.len() as int
    }
}

/// Trimming takes whitespace off both ends, all of it, and nothing else: what is left is the text
/// from the first to the last character that is no whitespace.
pub proof fn trimming_takes_whitespace_off_the_ends(s: Seq<char>)
    ensures
        exists|from: int, to: int|
            {
                &&& 0 <= from <= to <= s.len()
                &&& trimmed(s) == #[trigger] s.subrange(from, to)
                &&& forall|i: int|
                    0 <= i < s.len() && !(from <= i < to) ==> is_white(#[trigger] s[i])
            },
        trimmed(s).len() > 0 ==> !is_white(trimmed(s)[0]) && !is_white(trimmed(s).last()),
{
    let from = start_trimmed(s);
    let rest = s.skip(from);
    let n = end_trimmed(rest);
    assert(rest.take(n) =~= s.subrange(from, from + n));
    assert forall|i: int| 0 <= i < s.len() && !(from <= i < from + n) implies is_white(
        #[trigger] s[i],
    ) by {
        if i >= from + n {
            assert(rest[i - from] == s[i]);
        }
    }
    if n > 0 {
        assert(rest[0] == s[from]);
    }
}

/// Trimming a trimmed text changes nothing, and what has no whitespace at its ends is not trimmed.
pub proof fn trimmed_texts_stay(s: Seq<char>)
    requires
        s.len() > 0 ==> !is_white(s[0]) && !is_white(s.last()),
    ensures
        trimmed(s) == s,
{
}

/// Joining one list behind another puts the separator between the two, once.
pub proof fn joining_in_parts(a: Seq<Seq<char>>, b: Seq<Seq<char>>, sep: Seq<char>)
    requires
        a.len() > 0,
        b.len() > 0,
    ensures
        joined(a + b, sep) == joined(a, sep) + sep + joined(b, sep),
        joined(Seq::<Seq<char>>::empty(), sep) == Seq::<char>::empty(),
        a.len() == 1 ==> joined(a, sep) == a[0],
    decreases b.len(),
{
    let all = a + b;
    if b.len() == 1 {
        assert(all.drop_last() =~= a);
        assert(all.last() == b[0]);
    } else {
        let head = b.drop_last();
        joining_in_parts(a, head, sep);
        assert(all.drop_last() =~= a + head);
        assert(all.last() == b.last());
        assert(joined(a, sep) + sep + joined(head, sep) + sep + b.last() =~= joined(a, sep) + sep + (
        joined(head, sep) + sep + b.last()));
    }
}

/// A text has as many lines as line feeds split it into, but for an empty last one.
pub proof fn lines_end_at_line_feeds(s: Seq<char>)
    ensures
        lines_in(s) == if s.len() == 0 || s.last() == '\n' {
            pieces(s, '\n').len() - 1
        } else {
            pieces(s, '\n').len() as int
        },
    decreases s.len(),
{
    if s.len() > 0 {
        let t = s.drop_last();
        lines_end_at_line_feeds(t);
        pieces_nonempty(t, '\n');
        if t.len() > 0 {
            assert(t.last() == s[s.len() - 2]);
        }
    }
}

/// Adding a name keeps the names there were, in order, and adds at most the new one, which is then
/// found.
pub proof fn added_names_are_found(names: Seq<Seq<char>>, name: Seq<char>)
    ensures
        names.is_prefix_of(with_name(names, name)),
        has_ci(with_name(names, name), name),
        with_name(names, name).len() == names.len() + if has_ci(names, name) {
            0int
        } else {
            1
        },
{
    if !has_ci(names, name) {
        let r = with_name(names, name);
        assert(same_ci(r[names.len() as int], name));
    }
}

} // verus!
