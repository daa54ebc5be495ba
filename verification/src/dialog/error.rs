//! The dismissible error dialog: wrapping its message and sizing it.
use vstd::prelude::*;
use vstd::string::*;

use crate::text::{
    chars_of, join, joined, joined_pieces, pieces, pieces_alone, pieces_chars, pieces_nonempty,
    pieces_of_joined, pieces_of_line, split, text_of, texts,
};

verus! {

/// Widest text column the dialog lays out at.
pub const MAX_TEXT_W: i32 = 68;

/// Narrowest text column, so a one-word error still looks like a dialog.
pub const MIN_TEXT_W: i32 = 34;

/// Most text rows shown; a longer message is clipped rather than run off-screen.
pub const MAX_TEXT_H: i32 = 18;

/// Columns the frame and the margins take on top of the text column.
pub const CHROME_W: i32 = 4;

/// Rows the title, the margins and the button row take on top of the text rows.
pub const CHROME_H: i32 = 5;

/// The finished lines once an open line is closed; an empty one leaves no trace.
pub open spec fn flushed(done: Seq<Seq<char>>, line: Seq<char>) -> Seq<Seq<char>> {
    if line.len() == 0 {
        done
    } else {
        done.push(line)
    }
}

/// The finished lines and the open line after one more word: a word wider than the column is
/// chopped into full lines, any other goes behind the open line if it fits there and opens a new
/// line if not.
pub open spec fn placed(done: Seq<Seq<char>>, line: Seq<char>, word: Seq<char>, width: nat) -> (
    Seq<Seq<char>>,
    Seq<char>,
)
    decreases word.len(),
{
    if width > 0 && word.len() > width {
        placed(
            flushed(done, line).push(word.take(width as int)),
            Seq::empty(),
            word.skip(width as int),
            width,
        )
    } else if line.len() == 0 {
        (done, word)
    } else if line.len() + 1 + word.len() > width {
        (done.push(line), word)
    } else {
        (done, line.push(' ') + word)
    }
}

/// The finished lines and the open line after the words of a paragraph.
pub open spec fn filled(done: Seq<Seq<char>>, words: Seq<Seq<char>>, width: nat) -> (
    Seq<Seq<char>>,
    Seq<char>,
)
    decreases words.len(),
{
    if words.len() == 0 {
        (done, Seq::empty())
    } else {
        let before = filled(done, words.drop_last(), width);
        placed(before.0, before.1, words.last(), width)
    }
}

/// The lines of a list of paragraphs; each paragraph ends its last line.
pub open spec fn paragraphs(paras: Seq<Seq<char>>, width: nat) -> Seq<Seq<char>>
    decreases paras.len(),
{
    if paras.len() == 0 {
        Seq::empty()
    } else {
        let f = filled(
            paragraphs(paras.drop_last(), width),
            pieces(paras.last(), ' '),
            width,
        );
        f.0.push(f.1)
    }
}

/// The lines of a text at a column width.
pub open spec fn wrapped(text: Seq<char>, width: nat) -> Seq<Seq<char>> {
    paragraphs(pieces(text, '\n'), width)
}

/// Whether a text can be laid out in a column: any text in a column of at least one character,
/// only spaces and line feeds in an empty column.
pub open spec fn can_wrap(text: Seq<char>, width: nat) -> bool {
    width > 0 || forall|i: int| 0 <= i < text.len() ==> text[i] == ' ' || text[i] == '\n'
}

/// Whether every line stays within the column.
pub open spec fn fits(lines: Seq<Seq<char>>, width: nat) -> bool {
    forall|i: int| 0 <= i < lines.len() ==> (#[trigger] lines[i]).len() <= width
}

proof fn placed_fits(done: Seq<Seq<char>>, line: Seq<char>, word: Seq<char>, width: nat)
    requires
        fits(done, width),
        line.len() <= width,
        width > 0 || word.len() == 0,
    ensures
        fits(placed(done, line, word, width).0, width),
        placed(done, line, word, width).1.len() <= width,
    decreases word.len(),
{
    if width > 0 && word.len() > width {
        placed_fits(
            flushed(done, line).push(word.take(width as int)),
            Seq::empty(),
            word.skip(width as int),
            width,
        );
    }
}

proof fn filled_fits(done: Seq<Seq<char>>, words: Seq<Seq<char>>, width: nat)
    requires
        fits(done, width),
        width > 0 || fits(words, 0),
    ensures
        fits(filled(done, words, width).0, width),
        filled(done, words, width).1.len() <= width,
    decreases words.len(),
{
    if words.len() > 0 {
        let before = filled(done, words.drop_last(), width);
        assert(fits(words, 0) ==> fits(words.drop_last(), 0));
        filled_fits(done, words.drop_last(), width);
        placed_fits(before.0, before.1, words.last(), width);
    }
}

proof fn paragraphs_fit(paras: Seq<Seq<char>>, width: nat)
    requires
        forall|k: int| 0 <= k < paras.len() ==> width > 0 || fits(pieces(#[trigger] paras[k], ' '), 0),
    ensures
        fits(paragraphs(paras, width), width),
    decreases paras.len(),
{
    if paras.len() > 0 {
        assert forall|k: int| 0 <= k < paras.drop_last().len() implies width > 0 || fits(
            pieces(#[trigger] paras.drop_last()[k], ' '),
            0,
        ) by {
            assert(paras.drop_last()[k] == paras[k]);
        }
        paragraphs_fit(paras.drop_last(), width);
        assert(paras.last() == paras[paras.len() - 1]);
        filled_fits(paragraphs(paras.drop_last(), width), pieces(paras.last(), ' '), width);
    }
}

proof fn blank_words(text: Seq<char>)
    requires
        can_wrap(text, 0),
    ensures
        forall|k: int|
            0 <= k < pieces(text, '\n').len() ==> fits(
                pieces(#[trigger] pieces(text, '\n')[k], ' '),
                0,
            ),
{
    assert forall|k: int| 0 <= k < pieces(text, '\n').len() implies fits(
        pieces(#[trigger] pieces(text, '\n')[k], ' '),
        0,
    ) by {
        let para = pieces(text, '\n')[k];
        assert forall|m: int| 0 <= m < pieces(para, ' ').len() implies (#[trigger] pieces(
            para,
            ' ',
        )[m]).len() <= 0 by {
            let word = pieces(para, ' ')[m];
            if word.len() > 0 {
                pieces_chars(para, ' ', m, 0);
                let j = choose|j: int| 0 <= j < para.len() && para[j] == word[0];
                pieces_chars(text, '\n', k, j);
            }
        }
    }
}

/// No wrapped line is wider than the column.
pub proof fn wrapped_lines_fit(text: Seq<char>, width: nat)
    requires
        can_wrap(text, width),
    ensures
        fits(wrapped(text, width), width),
{
    if width == 0 {
        blank_words(text);
    }
    paragraphs_fit(pieces(text, '\n'), width);
}

fn flush(done: &mut Vec<String>, line: String)
    ensures
        texts(final(done)@) == flushed(texts(old(done)@), line@),
{
    let ghost l = line@;
    if !line.as_str().is_empty() {
        done.push(line);
    }
    assert(texts(done@) =~= flushed(texts(old(done)@), l));
}

fn place(done: &mut Vec<String>, line: String, word: &str, width: usize) -> (r: String)
    requires
        width > 0 || word@.len() == 0,
        line@.len() <= width,
    ensures
        (texts(final(done)@), r@) == placed(texts(old(done)@), line@, word@, width as nat),
        r@.len() <= width,
{
    proof {
        let none = Seq::<Seq<char>>::empty();
        placed_fits(none, line@, word@, width as nat);
        placed_line(texts(done@), none, line@, word@, width as nat);
    }
    let w: Vec<char> = chars_of(word);
    let mut line: String = line;
    let ghost goal = placed(texts(done@), line@, word@, width as nat);
    let mut at: usize = 0;
    assert(word@.skip(0) =~= word@);
    while w.len() - at > width
        invariant
            w@ == word@,
            at <= w@.len(),
            width > 0 || word@.len() == 0,
            line@.len() <= width,
            goal == placed(texts(done@), line@, word@.skip(at as int), width as nat),
        decreases w@.len() - at,
    {
        let ghost rest = word@.skip(at as int);
        flush(done, line);
        let head: String = text_of(&w, at, at + width);
        let ghost d0 = done@;
        proof {
            assert(head@ =~= rest.take(width as int));
            assert(rest.skip(width as int) =~= word@.skip(at + width));
        }
        done.push(head);
        assert(texts(done@) =~= texts(d0).push(rest.take(width as int)));
        line = String::new();
        assert(line@ =~= Seq::<char>::empty());
        at += width;
    }
    let rest: String = text_of(&w, at, w.len());
    assert(rest@ =~= word@.skip(at as int));
    let line_len: usize = line.as_str().unicode_len();
    if line_len == 0 {
        assert(texts(done@) == goal.0);
        rest
    } else if w.len() - at >= width - line_len {
        let ghost d0 = done@;
        let ghost l0 = line@;
        done.push(line);
        assert(texts(done@) =~= texts(d0).push(l0));
        rest
    } else {
        line.push(' ');
        line.append(&rest);
        line
    }
}

/// The open line after a word does not depend on the finished lines.
proof fn placed_line(
    a: Seq<Seq<char>>,
    b: Seq<Seq<char>>,
    line: Seq<char>,
    word: Seq<char>,
    width: nat,
)
    ensures
        placed(a, line, word, width).1 == placed(b, line, word, width).1,
    decreases word.len(),
{
    if width > 0 && word.len() > width {
        placed_line(
            flushed(a, line).push(word.take(width as int)),
            flushed(b, line).push(word.take(width as int)),
            Seq::empty(),
            word.skip(width as int),
            width,
        );
    }
}

/// Breaks `text` into lines of at most `width` columns. Explicit line feeds are honoured, lines
/// break at spaces, and a token wider than the column is chopped (a DN has no spaces to break at).
pub fn wrap(text: &str, width: usize) -> (r: Vec<String>)
    requires
        can_wrap(text@, width as nat),
    ensures
        texts(r@) == wrapped(text@, width as nat),
        fits(texts(r@), width as nat),
        r@.len() >= 1,
{
    proof {
        wrapped_lines_fit(text@, width as nat);
        if width == 0 {
            blank_words(text@);
        }
    }
    let mut out: Vec<String> = Vec::new();
    let paras: Vec<String> = split(text, '\n');
    let mut p: usize = 0;
    assert(texts(out@) =~= paragraphs(pieces(text@, '\n').take(0), width as nat));
    while p < paras.len()
        invariant
            p <= paras@.len(),
            texts(paras@) == pieces(text@, '\n'),
            texts(out@) == paragraphs(pieces(text@, '\n').take(p as int), width as nat),
            p > 0 ==> out@.len() >= 1,
            width > 0 || forall|k: int|
                0 <= k < pieces(text@, '\n').len() ==> fits(
                    pieces(#[trigger] pieces(text@, '\n')[k], ' '),
                    0,
                ),
        decreases paras@.len() - p,
    {
        let ghost base = texts(out@);
        let ghost para = texts(paras@)[p as int];
        assert(para == pieces(text@, '\n')[p as int]);
        assert(para == paras@[p as int]@);
        let words: Vec<String> = split(&paras[p], ' ');
        let ghost ws = pieces(para, ' ');
        let mut line: String = String::new();
        let mut w: usize = 0;
        assert(line@ =~= Seq::<char>::empty());
        while w < words.len()
            invariant
                w <= words@.len(),
                texts(words@) == ws,
                width > 0 || fits(ws, 0),
                line@.len() <= width,
                (texts(out@), line@) == filled(base, ws.take(w as int), width as nat),
            decreases words@.len() - w,
        {
            proof {
                assert(ws.take(w + 1).drop_last() =~= ws.take(w as int));
                assert(ws.take(w + 1).last() == ws[w as int]);
                assert(ws[w as int] == words@[w as int]@);
            }
            line = place(&mut out, line, &words[w], width);
            w += 1;
        }
        let ghost o0 = out@;
        let ghost l0 = line@;
        out.push(line);
        p += 1;
        proof {
            assert(texts(out@) =~= texts(o0).push(l0));
            assert(ws.take(ws.len() as int) =~= ws);
            let done = pieces(text@, '\n').take(p as int);
            assert(done.drop_last() =~= pieces(text@, '\n').take(p - 1));
            assert(done.last() == para);
        }
    }
    assert(pieces(text@, '\n').take(paras@.len() as int) =~= pieces(text@, '\n'));
    out
}

/// The characters of a text that are neither a space nor a line feed.
pub open spec fn ink(s: Seq<char>) -> Seq<char>
    decreases s.len(),
{
    if s.len() == 0 {
        s
    } else if s.last() == ' ' || s.last() == '\n' {
        ink(s.drop_last())
    } else {
        ink(s.drop_last()).push(s.last())
    }
}

/// Texts written one after the other.
pub open spec fn run_together(v: Seq<Seq<char>>) -> Seq<char>
    decreases v.len(),
{
    if v.len() == 0 {
        Seq::empty()
    } else {
        run_together(v.drop_last()) + v.last()
    }
}

proof fn ink_append(a: Seq<char>, b: Seq<char>)
    ensures
        ink(a + b) == ink(a) + ink(b),
    decreases b.len(),
{
    if b.len() == 0 {
        assert(a + b =~= a);
        assert(ink(a) + ink(b) =~= ink(a));
    } else {
        assert((a + b).drop_last() =~= a + b.drop_last());
        ink_append(a, b.drop_last());
        assert(ink(a) + ink(b) =~= if b.last() == ' ' || b.last() == '\n' {
            ink(a) + ink(b.drop_last())
        } else {
            (ink(a) + ink(b.drop_last())).push(b.last())
        });
    }
}

proof fn run_push(v: Seq<Seq<char>>, x: Seq<char>)
    ensures
        run_together(v.push(x)) == run_together(v) + x,
{
    assert(v.push(x).drop_last() =~= v);
}

proof fn ink_pieces(s: Seq<char>, sep: char)
    requires
        sep == ' ' || sep == '\n',
    ensures
        ink(run_together(pieces(s, sep))) == ink(s),
    decreases s.len(),
{
    if s.len() == 0 {
        run_push(Seq::empty(), Seq::empty());
        assert(pieces(s, sep) =~= Seq::<Seq<char>>::empty().push(Seq::empty()));
        assert(run_together(pieces(s, sep)) =~= s);
    } else {
        let t = s.drop_last();
        let before = pieces(t, sep);
        pieces_nonempty(t, sep);
        ink_pieces(t, sep);
        if s.last() == sep {
            run_push(before, Seq::empty());
            assert(run_together(before) + Seq::<char>::empty() =~= run_together(before));
        } else {
            let head = before.drop_last();
            let tail = before.last();
            run_push(head, tail);
            assert(head.push(tail) =~= before);
            run_push(head, tail.push(s.last()));
            let all = run_together(head) + tail.push(s.last());
            assert(all.drop_last() =~= run_together(before));
            assert(all.last() == s.last());
        }
    }
}

proof fn placed_keeps_ink(done: Seq<Seq<char>>, line: Seq<char>, word: Seq<char>, width: nat)
    ensures
        ({
            let p = placed(done, line, word, width);
            ink(run_together(p.0) + p.1) == ink(run_together(done) + line) + ink(word)
        }),
    decreases word.len(),
{
    let p = placed(done, line, word, width);
    let all = run_together(done);
    ink_append(all, line);
    if width > 0 && word.len() > width {
        let head = word.take(width as int);
        let rest = word.skip(width as int);
        let flat = flushed(done, line);
        placed_keeps_ink(flat.push(head), Seq::empty(), rest, width);
        run_push(flat, head);
        run_push(done, line);
        assert(line.len() == 0 ==> all + line =~= all);
        assert(run_together(flat) == all + line);
        assert((all + line) + head + Seq::<char>::empty() =~= (all + line) + head);
        ink_append(all + line, head);
        ink_append(head, rest);
        assert(head + rest =~= word);
        assert(ink(all + line) + ink(head) + ink(rest) =~= ink(all + line) + ink(word));
    } else if line.len() == 0 {
        assert(all + line =~= all);
        ink_append(all, word);
    } else if line.len() + 1 + word.len() > width {
        run_push(done, line);
        ink_append(all + line, word);
    } else {
        let gap = (all + line).push(' ');
        assert(all + (line.push(' ') + word) =~= gap + word);
        ink_append(gap, word);
        assert(gap.drop_last() =~= all + line);
    }
}

proof fn filled_keeps_ink(done: Seq<Seq<char>>, words: Seq<Seq<char>>, width: nat)
    ensures
        ({
            let f = filled(done, words, width);
            ink(run_together(f.0) + f.1) == ink(run_together(done)) + ink(run_together(words))
        }),
    decreases words.len(),
{
    if words.len() == 0 {
        assert(run_together(done) + Seq::<char>::empty() =~= run_together(done));
        assert(ink(run_together(done)) + ink(Seq::empty()) =~= ink(run_together(done)));
    } else {
        let before = filled(done, words.drop_last(), width);
        filled_keeps_ink(done, words.drop_last(), width);
        placed_keeps_ink(before.0, before.1, words.last(), width);
        ink_append(run_together(words.drop_last()), words.last());
        assert(ink(run_together(done)) + ink(run_together(words.drop_last())) + ink(words.last())
            =~= ink(run_together(done)) + ink(run_together(words)));
    }
}

proof fn paragraphs_keep_ink(paras: Seq<Seq<char>>, width: nat)
    ensures
        ink(run_together(paragraphs(paras, width))) == ink(run_together(paras)),
    decreases paras.len(),
{
    if paras.len() > 0 {
        let base = paragraphs(paras.drop_last(), width);
        let words = pieces(paras.last(), ' ');
        let f = filled(base, words, width);
        paragraphs_keep_ink(paras.drop_last(), width);
        filled_keeps_ink(base, words, width);
        ink_pieces(paras.last(), ' ');
        run_push(f.0, f.1);
        ink_append(run_together(paras.drop_last()), paras.last());
    }
}

/// Wrapping neither drops, adds nor reorders a visible character.
pub proof fn wrapping_keeps_characters(text: Seq<char>, width: nat)
    ensures
        ink(run_together(wrapped(text, width))) == ink(text),
{
    paragraphs_keep_ink(pieces(text, '\n'), width);
    ink_pieces(text, '\n');
}

proof fn chopped_runs_together(done: Seq<Seq<char>>, word: Seq<char>, width: nat)
    ensures
        ({
            let p = placed(done, Seq::empty(), word, width);
            run_together(p.0) + p.1 == run_together(done) + word
        }),
    decreases word.len(),
{
    if width > 0 && word.len() > width {
        let head = word.take(width as int);
        let rest = word.skip(width as int);
        run_push(done, head);
        chopped_runs_together(done.push(head), rest, width);
        assert(run_together(done) + head + rest =~= run_together(done) + word);
    }
}

/// A token without spaces or line feeds is only chopped: its lines, run together, are the token.
pub proof fn chopping_loses_nothing(text: Seq<char>, width: nat)
    requires
        !text.contains(' '),
        !text.contains('\n'),
    ensures
        run_together(wrapped(text, width)) == text,
{
    pieces_alone(text, '\n');
    pieces_alone(text, ' ');
    let none = Seq::<Seq<char>>::empty();
    assert(seq![text].drop_last() =~= none);
    assert(seq![text].last() == text);
    assert(filled(none, none, width) == (none, Seq::<char>::empty()));
    let p = placed(none, Seq::empty(), text, width);
    assert(filled(none, seq![text], width) == p);
    assert(paragraphs(none, width) =~= none);
    assert(wrapped(text, width) == p.0.push(p.1));
    chopped_runs_together(none, text, width);
    run_push(p.0, p.1);
    assert(Seq::<char>::empty() + text =~= text);
}

/// Whether a text is one that wrapping leaves as a line: it has no line feed and starts with no
/// space.
pub open spec fn is_line(s: Seq<char>) -> bool {
    !s.contains('\n') && (s.len() > 0 ==> s[0] != ' ')
}

/// Whether every text is a line.
pub open spec fn all_lines(v: Seq<Seq<char>>) -> bool {
    forall|i: int| 0 <= i < v.len() ==> is_line(#[trigger] v[i])
}

/// Whether a text has neither a space nor a line feed.
pub open spec fn is_word(s: Seq<char>) -> bool {
    !s.contains(' ') && !s.contains('\n')
}

proof fn part_is_word(word: Seq<char>, from: int, to: int)
    requires
        is_word(word),
        0 <= from <= to <= word.len(),
    ensures
        is_word(word.subrange(from, to)),
        is_line(word.subrange(from, to)),
{
    let part = word.subrange(from, to);
    assert forall|i: int| 0 <= i < part.len() implies part[i] != ' ' && part[i] != '\n' by {
        assert(word[from + i] == part[i]);
        assert(word.contains(part[i]));
    }
}

proof fn placed_gives_lines(done: Seq<Seq<char>>, line: Seq<char>, word: Seq<char>, width: nat)
    requires
        all_lines(done),
        is_line(line),
        is_word(word),
    ensures
        all_lines(placed(done, line, word, width).0),
        is_line(placed(done, line, word, width).1),
    decreases word.len(),
{
    part_is_word(word, 0, word.len() as int);
    assert(word.subrange(0, word.len() as int) =~= word);
    if width > 0 && word.len() > width {
        let head = word.take(width as int);
        let rest = word.skip(width as int);
        part_is_word(word, 0, width as int);
        part_is_word(word, width as int, word.len() as int);
        assert(head =~= word.subrange(0, width as int));
        assert(rest =~= word.subrange(width as int, word.len() as int));
        placed_gives_lines(flushed(done, line).push(head), Seq::empty(), rest, width);
    } else if line.len() > 0 && line.len() + 1 + word.len() <= width {
        let all = line.push(' ') + word;
        assert(all[0] == line[0]);
        assert forall|i: int| 0 <= i < all.len() implies all[i] != '\n' by {
            if i < line.len() {
                assert(line.contains(line[i]));
            } else if i > line.len() {
                assert(word.contains(word[i - line.len() - 1]));
            }
        }
    }
}

proof fn filled_gives_lines(done: Seq<Seq<char>>, words: Seq<Seq<char>>, width: nat)
    requires
        all_lines(done),
        forall|i: int| 0 <= i < words.len() ==> is_word(#[trigger] words[i]),
    ensures
        all_lines(filled(done, words, width).0),
        is_line(filled(done, words, width).1),
    decreases words.len(),
{
    if words.len() > 0 {
        let head = words.drop_last();
        assert forall|i: int| 0 <= i < head.len() implies is_word(#[trigger] head[i]) by {
            assert(head[i] == words[i]);
        }
        assert(words.last() == words[words.len() - 1]);
        filled_gives_lines(done, head, width);
        let before = filled(done, head, width);
        placed_gives_lines(before.0, before.1, words.last(), width);
    }
}

proof fn paragraphs_give_lines(paras: Seq<Seq<char>>, width: nat)
    requires
        forall|k: int| 0 <= k < paras.len() ==> !(#[trigger] paras[k]).contains('\n'),
    ensures
        all_lines(paragraphs(paras, width)),
        paras.len() > 0 ==> paragraphs(paras, width).len() > 0,
    decreases paras.len(),
{
    if paras.len() > 0 {
        let head = paras.drop_last();
        let para = paras.last();
        assert forall|k: int| 0 <= k < head.len() implies !(#[trigger] head[k]).contains('\n') by {
            assert(head[k] == paras[k]);
        }
        assert(para == paras[paras.len() - 1]);
        paragraphs_give_lines(head, width);
        let words = pieces(para, ' ');
        assert forall|m: int| 0 <= m < words.len() implies is_word(#[trigger] words[m]) by {
            assert forall|j: int| 0 <= j < words[m].len() implies words[m][j] != ' '
                && words[m][j] != '\n' by {
                pieces_chars(para, ' ', m, j);
            }
        }
        filled_gives_lines(paragraphs(head, width), words, width);
    }
}

proof fn words_that_fit(done: Seq<Seq<char>>, words: Seq<Seq<char>>, width: nat)
    requires
        words.len() > 0,
        words.len() > 1 ==> words[0].len() > 0,
        joined(words, seq![' ']).len() <= width,
    ensures
        filled(done, words, width) == (done, joined(words, seq![' '])),
        words[0].len() <= joined(words, seq![' ']).len(),
    decreases words.len(),
{
    let head = words.drop_last();
    let last = words.last();
    if words.len() == 1 {
        assert(head =~= Seq::<Seq<char>>::empty());
        assert(filled(done, head, width) == (done, Seq::<char>::empty()));
        assert(last == words[0]);
    } else {
        assert(head[0] == words[0]);
        words_that_fit(done, head, width);
        let line = joined(head, seq![' ']);
        assert(line + seq![' '] + last =~= line.push(' ') + last);
    }
}

proof fn line_stays(done: Seq<Seq<char>>, line: Seq<char>, width: nat)
    requires
        is_line(line),
        line.len() <= width,
    ensures
        filled(done, pieces(line, ' '), width) == (done, line),
{
    let words = pieces(line, ' ');
    pieces_nonempty(line, ' ');
    joined_pieces(line, ' ');
    if words.len() > 1 && words[0].len() == 0 {
        starts_with_first(words);
        assert(line[0] == ' ');
    }
    words_that_fit(done, words, width);
}

proof fn starts_with_first(words: Seq<Seq<char>>)
    requires
        words.len() > 1,
        words[0].len() == 0,
    ensures
        joined(words, seq![' ']).len() > 0,
        joined(words, seq![' '])[0] == ' ',
    decreases words.len(),
{
    let head = words.drop_last();
    let all = joined(words, seq![' ']);
    assert(head[0] == words[0]);
    if words.len() == 2 {
        assert(joined(head, seq![' ']) == words[0]);
        assert(all[0] == ' ');
    } else {
        starts_with_first(head);
        assert(all[0] == joined(head, seq![' '])[0]);
    }
}

proof fn lines_stay(lines: Seq<Seq<char>>, width: nat)
    requires
        all_lines(lines),
        fits(lines, width),
    ensures
        paragraphs(lines, width) == lines,
    decreases lines.len(),
{
    if lines.len() > 0 {
        let head = lines.drop_last();
        assert forall|i: int| 0 <= i < head.len() implies is_line(#[trigger] head[i]) by {
            assert(head[i] == lines[i]);
        }
        assert(lines.last() == lines[lines.len() - 1]);
        lines_stay(head, width);
        line_stays(head, lines.last(), width);
        assert(head.push(lines.last()) =~= lines);
    } else {
        assert(lines =~= Seq::<Seq<char>>::empty());
    }
}

/// Wrapping lines that are wrapped already changes nothing.
pub proof fn wrapping_again_changes_nothing(text: Seq<char>, width: nat)
    requires
        can_wrap(text, width),
    ensures
        wrapped(joined(wrapped(text, width), "\n"@), width) == wrapped(text, width),
{
    reveal_strlit("\n");
    assert("\n"@ =~= seq!['\n']);
    let paras = pieces(text, '\n');
    let lines = wrapped(text, width);
    pieces_nonempty(text, '\n');
    assert forall|k: int| 0 <= k < paras.len() implies !(#[trigger] paras[k]).contains('\n') by {
        assert forall|j: int| 0 <= j < paras[k].len() implies paras[k][j] != '\n' by {
            pieces_chars(text, '\n', k, j);
        }
    }
    paragraphs_give_lines(paras, width);
    wrapped_lines_fit(text, width);
    pieces_of_joined(lines, '\n');
    lines_stay(lines, width);
}

/// The length of the longest line.
pub open spec fn widest(lines: Seq<Seq<char>>) -> nat
    decreases lines.len(),
{
    if lines.len() == 0 {
        0
    } else {
        let before = widest(lines.drop_last());
        if before < lines.last().len() {
            lines.last().len()
        } else {
            before
        }
    }
}

/// The size of the text area and what stands in it.
pub struct ErrorLayout {
    pub text_w: i32,
    pub text_h: i32,
    pub body: String,
}

/// Sizes the error dialog to its message, within the least and the greatest text column and the
/// greatest number of rows; the rows beyond that are clipped.
pub fn layout(text: &str) -> (r: ErrorLayout)
    ensures
        ({
            let lines = wrapped(text@, MAX_TEXT_W as nat);
            let rows = if lines.len() < MAX_TEXT_H { lines.len() as int } else { MAX_TEXT_H as int };
            let column = widest(lines);
            &&& r.text_w == if column < MIN_TEXT_W { MIN_TEXT_W as int } else { column as int }
            &&& r.text_w <= MAX_TEXT_W
            &&& r.text_h == rows
            &&& 1 <= rows
            &&& r.body@ == joined(lines.take(rows), "\n"@)
        }),
{
    let mut lines: Vec<String> = wrap(text, MAX_TEXT_W as usize);
    let ghost all = texts(lines@);
    let mut column: usize = 0;
    let mut i: usize = 0;
    while i < lines.len()
        invariant
            i <= lines@.len(),
            all == texts(lines@),
            fits(all, MAX_TEXT_W as nat),
            column == widest(all.take(i as int)),
            column <= MAX_TEXT_W,
        decreases lines@.len() - i,
    {
        let n: usize = lines[i].as_str().unicode_len();
        assert(all[i as int] == lines@[i as int]@);
        if column < n {
            column = n;
        }
        i += 1;
        assert(all.take(i as int).drop_last() =~= all.take(i - 1));
    }
    assert(all.take(lines@.len() as int) =~= all);
    let text_w: i32 = if column < MIN_TEXT_W as usize {
        MIN_TEXT_W
    } else {
        column as i32
    };
    let rows: usize = if lines.len() < MAX_TEXT_H as usize {
        lines.len()
    } else {
        MAX_TEXT_H as usize
    };
    lines.truncate(rows);
    assert(texts(lines@) =~= all.take(rows as int));
    let body: String = join(&lines, "\n");
    ErrorLayout { text_w, text_h: rows as i32, body }
}

proof fn piece_grows(a: Seq<char>, b: Seq<char>, sep: char)
    requires
        !b.contains(sep),
    ensures
        pieces(a + b, sep) == pieces(a, sep).drop_last().push(pieces(a, sep).last() + b),
    decreases b.len(),
{
    pieces_nonempty(a, sep);
    let p = pieces(a, sep);
    if b.len() == 0 {
        assert(a + b =~= a);
        assert(p.last() + b =~= p.last());
        assert(p.drop_last().push(p.last()) =~= p);
    } else {
        let head = b.drop_last();
        assert forall|i: int| 0 <= i < head.len() implies head[i] != sep by {
            assert(b[i] == head[i]);
        }
        assert(!head.contains(sep));
        piece_grows(a, head, sep);
        assert((a + b).drop_last() =~= a + head);
        assert(b.last() == b[b.len() - 1]);
        assert((a + b).last() == b.last());
        let before = pieces(a + head, sep);
        assert(before.drop_last() =~= p.drop_last());
        assert((p.last() + head).push(b.last()) =~= p.last() + b);
    }
}

proof fn placed_behind(done: Seq<Seq<char>>, line: Seq<char>, word: Seq<char>, width: nat)
    ensures
        placed(done, line, word, width).0 == done + placed(Seq::empty(), line, word, width).0,
        placed(done, line, word, width).1 == placed(Seq::empty(), line, word, width).1,
    decreases word.len(),
{
    let none = Seq::<Seq<char>>::empty();
    if width > 0 && word.len() > width {
        let part = word.take(width as int);
        let rest = word.skip(width as int);
        let a = flushed(done, line).push(part);
        let b = flushed(none, line).push(part);
        placed_behind(a, Seq::empty(), rest, width);
        placed_behind(b, Seq::empty(), rest, width);
        assert(a =~= done + b);
        assert(a + placed(none, Seq::empty(), rest, width).0 =~= done + (b + placed(
            none,
            Seq::empty(),
            rest,
            width,
        ).0));
    } else if line.len() == 0 {
        assert(done + none =~= done);
    } else if line.len() + 1 + word.len() > width {
        assert(done.push(line) =~= done + none.push(line));
    } else {
        assert(done + none =~= done);
    }
}

proof fn filled_behind(done: Seq<Seq<char>>, words: Seq<Seq<char>>, width: nat)
    ensures
        filled(done, words, width).0 == done + filled(Seq::empty(), words, width).0,
        filled(done, words, width).1 == filled(Seq::empty(), words, width).1,
    decreases words.len(),
{
    let none = Seq::<Seq<char>>::empty();
    if words.len() == 0 {
        assert(done + none =~= done);
    } else {
        let head = words.drop_last();
        filled_behind(done, head, width);
        let a = filled(done, head, width);
        let b = filled(none, head, width);
        placed_behind(a.0, a.1, words.last(), width);
        placed_behind(b.0, b.1, words.last(), width);
        let p = placed(none, b.1, words.last(), width).0;
        assert((done + b.0) + p =~= done + (b.0 + p));
    }
}

/// A line feed ends a line: the lines of a text are followed by those of what stands behind it, as if
/// that stood alone.
pub proof fn line_feeds_start_anew(text: Seq<char>, rest: Seq<char>, width: nat)
    requires
        !rest.contains('\n'),
    ensures
        wrapped(text + seq!['\n'] + rest, width) == wrapped(text, width) + wrapped(rest, width),
{
    pieces_of_line(text, rest, '\n');
    pieces_alone(rest, '\n');
    let paras = pieces(text, '\n');
    let words = pieces(rest, ' ');
    assert(paras.push(rest).drop_last() =~= paras);
    filled_behind(paragraphs(paras, width), words, width);
    filled_behind(Seq::empty(), words, width);
    assert(seq![rest].drop_last() =~= Seq::<Seq<char>>::empty());
    assert(paragraphs(Seq::<Seq<char>>::empty(), width) =~= Seq::<Seq<char>>::empty());
    let f = filled(Seq::<Seq<char>>::empty(), words, width);
    assert(wrapped(rest, width) == f.0.push(f.1));
    assert((paragraphs(paras, width) + f.0).push(f.1) =~= paragraphs(paras, width) + f.0.push(f.1));
}

proof fn next_word(text: Seq<char>, word: Seq<char>, width: nat) -> (f: (Seq<Seq<char>>, Seq<char>))
    requires
        !word.contains(' '),
        !word.contains('\n'),
    ensures
        wrapped(text, width) == f.0.push(f.1),
        wrapped(text + seq![' '] + word, width) == placed(f.0, f.1, word, width).0.push(
            placed(f.0, f.1, word, width).1,
        ),
{
    let paras = pieces(text, '\n');
    pieces_nonempty(text, '\n');
    let more = seq![' '] + word;
    assert forall|i: int| 0 <= i < more.len() implies more[i] != '\n' by {
        if i > 0 {
            assert(more[i] == word[i - 1]);
        }
    }
    assert(!more.contains('\n'));
    piece_grows(text, more, '\n');
    assert(text + seq![' '] + word =~= text + more);
    let longer = paras.last() + more;
    assert(longer =~= paras.last() + seq![' '] + word);
    pieces_of_line(paras.last(), word, ' ');
    let words = pieces(paras.last(), ' ');
    assert(words.push(word).drop_last() =~= words);
    assert(paras.drop_last().push(longer).drop_last() =~= paras.drop_last());
    filled(paragraphs(paras.drop_last(), width), words, width)
}

/// A word that is not wider than the column goes behind the last line of the text before it, with a
/// space, if it fits there, and otherwise stands on a new line.
pub proof fn words_fill_the_line(text: Seq<char>, word: Seq<char>, width: nat)
    requires
        !word.contains(' '),
        !word.contains('\n'),
        word.len() <= width,
    ensures
        ({
            let before = wrapped(text, width);
            let after = wrapped(text + seq![' '] + word, width);
            &&& before.len() >= 1
            &&& before.last().len() == 0 ==> after == before.drop_last().push(word)
            &&& before.last().len() > 0 && before.last().len() + 1 + word.len() <= width ==> after
                == before.drop_last().push(before.last() + seq![' '] + word)
            &&& before.last().len() > 0 && before.last().len() + 1 + word.len() > width ==> after
                == before.push(word)
        }),
{
    let f = next_word(text, word, width);
    assert(f.0.push(f.1).drop_last() =~= f.0);
    assert(f.1.push(' ') + word =~= f.1 + seq![' '] + word);
}

/// A word that is wider than the column starts on a line of its own, is chopped into full lines, and is
/// laid out behind another text as it is alone.
pub proof fn long_words_are_chopped(text: Seq<char>, word: Seq<char>, width: nat)
    requires
        !word.contains(' '),
        !word.contains('\n'),
        0 < width < word.len(),
    ensures
        wrapped(word, width) == seq![word.take(width as int)] + wrapped(
            word.skip(width as int),
            width,
        ),
        wrapped(text + seq![' '] + word, width) == (if wrapped(text, width).last().len() == 0 {
            wrapped(text, width).drop_last()
        } else {
            wrapped(text, width)
        }) + wrapped(word, width),
{
    let none = Seq::<Seq<char>>::empty();
    let part = word.take(width as int);
    let rest = word.skip(width as int);
    word_alone(word, width);
    part_is_word(word, width as int, word.len() as int);
    assert(word.subrange(width as int, word.len() as int) =~= rest);
    word_alone(rest, width);
    placed_behind(none.push(part), Seq::empty(), rest, width);
    let r = placed(none, Seq::empty(), rest, width);
    assert((none.push(part) + r.0).push(r.1) =~= seq![part] + r.0.push(r.1));
    let f = next_word(text, word, width);
    assert(f.0.push(f.1).drop_last() =~= f.0);
    let start = flushed(f.0, f.1);
    let w = placed(none, Seq::empty(), word, width);
    placed_behind(start.push(part), Seq::empty(), rest, width);
    assert(start.push(part) + r.0 =~= start + (none.push(part) + r.0));
    assert((start + w.0).push(w.1) =~= start + w.0.push(w.1));
}

proof fn word_alone(word: Seq<char>, width: nat)
    requires
        !word.contains(' '),
        !word.contains('\n'),
    ensures
        wrapped(word, width) == placed(Seq::empty(), Seq::empty(), word, width).0.push(
            placed(Seq::empty(), Seq::empty(), word, width).1,
        ),
{
    pieces_alone(word, '\n');
    pieces_alone(word, ' ');
    let none = Seq::<Seq<char>>::empty();
    assert(seq![word].drop_last() =~= none);
    assert(paragraphs(none, width) =~= none);
    assert(filled(none, none, width).0 =~= none);
}

/// The dialog is as wide as its longest line.
pub proof fn the_longest_line_decides(lines: Seq<Seq<char>>)
    ensures
        forall|i: int| 0 <= i < lines.len() ==> (#[trigger] lines[i]).len() <= widest(lines),
        lines.len() > 0 ==> exists|i: int|
            0 <= i < lines.len() && (#[trigger] lines[i]).len() == widest(lines),
    decreases lines.len(),
{
    if lines.len() > 0 {
        let head = lines.drop_last();
        the_longest_line_decides(head);
        assert forall|i: int| 0 <= i < lines.len() implies (#[trigger] lines[i]).len() <= widest(
            lines,
        ) by {
            if i < head.len() {
                assert(lines[i] == head[i]);
            }
        }
        if widest(head) < lines.last().len() || head.len() == 0 {
            assert(lines[lines.len() - 1].len() == widest(lines));
        } else {
            let k = choose|k: int| 0 <= k < head.len() && (#[trigger] head[k]).len() == widest(head);
            assert(lines[k] == head[k]);
        }
    }
}

} // verus!
