//! Reading undoes writing: the text that writes down a piece reads as that
//! piece, and the text that writes down a program reads as that program.

use crate::parser::reader::{
    atom_end_spec, is_blank, is_delimiter, read_all_spec, read_one_spec, read_rest_spec,
    read_spec, skip_blank_spec, text_end_spec, SexpView,
};
use vstd::prelude::*;

verus! {

/// A word as the reader knows it: not empty, and without a delimiter.
pub open spec fn is_word_text(a: Seq<char>) -> bool {
    a.len() > 0 && forall|i: int| 0 <= i < a.len() ==> !is_delimiter(#[trigger] a[i])
}

/// A string literal as the reader knows it: it begins with a quote, and the
/// quote that closes it is its last character.
pub open spec fn is_string_text(t: Seq<char>) -> bool {
    t.len() >= 2 && t[0] == '"' && text_end_spec(t, 1) == Some(t.len() as int)
}

/// The pieces that can be written down: those whose words are words and whose
/// string literals are string literals.
pub open spec fn writable(s: SexpView) -> bool
    decreases s, 0nat,
{
    match s {
        SexpView::ATOM(a) => is_word_text(a),
        SexpView::TEXT(t) => is_string_text(t),
        SexpView::QUOTE(q) => writable(*q),
        SexpView::LIST(items) => writable_from(items, 0),
    }
}

/// The pieces `items[i..]` can all be written down.
pub open spec fn writable_from(items: Seq<SexpView>, i: int) -> bool
    decreases items, items.len() - i,
{
    if 0 <= i < items.len() {
        writable(items[i]) && writable_from(items, i + 1)
    } else {
        true
    }
}

/// A piece written down: a word or a string literal as it is, a quoted piece
/// behind a quotation mark, a list between brackets with one blank between
/// its pieces.
pub open spec fn write_spec(s: SexpView) -> Seq<char>
    decreases s, 0nat,
{
    match s {
        SexpView::ATOM(a) => a,
        SexpView::TEXT(t) => t,
        SexpView::QUOTE(q) => seq!['\''] + write_spec(*q),
        SexpView::LIST(items) => seq!['('] + write_rest_spec(items, 0),
    }
}

/// The pieces `items[i..]` written down with one blank between them, and the
/// bracket that closes their list.
pub open spec fn write_rest_spec(items: Seq<SexpView>, i: int) -> Seq<char>
    decreases items, items.len() - i,
{
    if 0 <= i < items.len() {
        write_spec(items[i]) + separator(items, i) + write_rest_spec(items, i + 1)
    } else {
        seq![')']
    }
}

/// What stands between the piece at `i` and what follows it: a blank before
/// another piece, nothing before the closing bracket.
pub open spec fn separator(items: Seq<SexpView>, i: int) -> Seq<char> {
    if i + 1 < items.len() {
        seq![' ']
    } else {
        Seq::empty()
    }
}

/// The pieces `items[i..]` written down as a program: each on a line of its
/// own.
pub open spec fn write_all_spec(items: Seq<SexpView>, i: int) -> Seq<char>
    decreases items.len() - i,
{
    if 0 <= i < items.len() {
        write_spec(items[i]) + seq!['\n'] + write_all_spec(items, i + 1)
    } else {
        Seq::empty()
    }
}

/// A written piece begins with a character that is neither a blank nor the
/// start of a comment nor a closing bracket.
pub proof fn lemma_first_char(s: SexpView)
    requires
        writable(s),
    ensures
        write_spec(s).len() > 0,
        !is_blank(write_spec(s)[0]),
        write_spec(s)[0] != ';',
        write_spec(s)[0] != ')',
{
    match s {
        SexpView::ATOM(a) => {
            assert(!is_delimiter(a[0]));
        },
        _ => {},
    }
}

/// A written word ends where it ends.
proof fn lemma_atom_end(text: Seq<char>, start: int, a: Seq<char>, k: int)
    requires
        is_word_text(a),
        0 <= start,
        0 <= k <= a.len(),
        start + a.len() <= text.len(),
        forall|i: int| 0 <= i < a.len() ==> text[start + i] == a[i],
        start + a.len() == text.len() || is_delimiter(text[start + a.len()]),
    ensures
        atom_end_spec(text, start + k) == start + a.len(),
    decreases a.len() - k,
{
    if k < a.len() {
        assert(text[start + k] == a[k]);
        assert(!is_delimiter(a[k]));
        lemma_atom_end(text, start, a, k + 1);
    }
}

/// A written string literal ends where it ends.
proof fn lemma_text_end(text: Seq<char>, start: int, t: Seq<char>, k: int)
    requires
        0 <= start,
        1 <= k <= t.len(),
        start + t.len() <= text.len(),
        forall|i: int| 0 <= i < t.len() ==> text[start + i] == t[i],
        text_end_spec(t, k) == Some(t.len() as int),
    ensures
        text_end_spec(text, start + k) == Some(start + t.len()),
    decreases t.len() - k,
{
    if k < t.len() {
        assert(text[start + k] == t[k]);
        if t[k] == '"' {
        } else if t[k] == '\\' {
            assert(k + 1 < t.len());
            lemma_text_end(text, start, t, k + 2);
        } else {
            lemma_text_end(text, start, t, k + 1);
        }
    }
}

/// Where a written piece stands in a text, followed by nothing or by a
/// delimiter, the reader reads it there, up to its end.
pub proof fn lemma_read_one(s: SexpView, pre: Seq<char>, post: Seq<char>)
    requires
        writable(s),
        post.len() == 0 || is_delimiter(post[0]),
    ensures
        read_one_spec(pre + write_spec(s) + post, pre.len() as int) == Some(
            (s, (pre.len() + write_spec(s).len()) as int),
        ),
    decreases s, 0nat,
{
    let w = write_spec(s);
    let text = pre + w + post;
    let p = pre.len() as int;
    lemma_first_char(s);
    assert(text[p] == w[0]);
    assert forall|i: int| 0 <= i < w.len() implies text[p + i] == w[i] by {}
    match s {
        SexpView::ATOM(a) => {
            assert(!is_delimiter(a[0]));
            if post.len() > 0 {
                assert(text[p + a.len()] == post[0]);
            }
            lemma_atom_end(text, p, a, 0);
            assert(text.subrange(p, p + a.len()) =~= a);
        },
        SexpView::TEXT(t) => {
            lemma_text_end(text, p, t, 1);
            assert(text.subrange(p, p + t.len()) =~= t);
        },
        SexpView::QUOTE(q) => {
            let inner = write_spec(*q);
            lemma_first_char(*q);
            assert(text[p + 1] == inner[0]);
            assert(skip_blank_spec(text, p + 1, false) == p + 1);
            let before = pre + seq!['\''];
            assert(before + inner + post =~= text);
            lemma_read_one(*q, before, post);
        },
        SexpView::LIST(items) => {
            let before = pre + seq!['('];
            assert(before + write_rest_spec(items, 0) + post =~= text);
            lemma_read_rest(items, 0, before, post);
            assert(items.subrange(0, items.len() as int) =~= items);
        },
    }
}

/// Where the written rest of a list stands in a text, the reader reads it
/// there, up to the closing bracket.
pub proof fn lemma_read_rest(items: Seq<SexpView>, i: int, pre: Seq<char>, post: Seq<char>)
    requires
        0 <= i <= items.len(),
        writable_from(items, i),
    ensures
        read_rest_spec(pre + write_rest_spec(items, i) + post, pre.len() as int) == Some(
            (
                items.subrange(i, items.len() as int),
                (pre.len() + write_rest_spec(items, i).len()) as int,
            ),
        ),
    decreases items, items.len() - i,
{
    let w = write_rest_spec(items, i);
    let text = pre + w + post;
    let p = pre.len() as int;
    if i == items.len() {
        assert(w =~= seq![')']);
        assert(text[p] == w[0]);
        assert(skip_blank_spec(text, p, false) == p);
        assert(items.subrange(i, items.len() as int) =~= Seq::<SexpView>::empty());
    } else {
        let first = write_spec(items[i]);
        let sep = separator(items, i);
        let tail = write_rest_spec(items, i + 1);
        lemma_first_char(items[i]);
        assert(w[0] == first[0]);
        assert(text[p] == w[0]);
        assert(skip_blank_spec(text, p, false) == p);
        let after = sep + tail + post;
        assert(pre + first + after =~= text);
        assert(after[0] == ' ' || after[0] == ')') by {
            if i + 1 < items.len() {
                assert(after[0] == sep[0]);
            } else {
                assert(after[0] == tail[0]);
            }
        }
        lemma_read_one(items[i], pre, after);
        let q = p + first.len();
        let next = pre + first + sep;
        assert(next + tail + post =~= text);
        lemma_read_rest(items, i + 1, next, post);
        if i + 1 < items.len() {
            assert(text[q] == ' ');
            assert(writable_from(items, i + 1));
            lemma_first_char(items[i + 1]);
            assert(text[q + 1] == tail[0]);
            assert(tail[0] == write_spec(items[i + 1])[0]);
            assert(skip_blank_spec(text, q + 1, false) == q + 1);
            assert(skip_blank_spec(text, q, false) == q + 1);
            assert(read_rest_spec(text, q) == read_rest_spec(text, q + 1));
        }
        assert(seq![items[i]] + items.subrange(i + 1, items.len() as int) =~= items.subrange(
            i,
            items.len() as int,
        ));
        assert(w.len() == first.len() + sep.len() + tail.len());
    }
}

/// Where a written program stands at the end of a text, the reader reads it
/// there.
pub proof fn lemma_read_all(items: Seq<SexpView>, i: int, pre: Seq<char>)
    requires
        0 <= i <= items.len(),
        writable_from(items, i),
    ensures
        read_all_spec(pre + write_all_spec(items, i), pre.len() as int) == Some(
            items.subrange(i, items.len() as int),
        ),
    decreases items.len() - i,
{
    let w = write_all_spec(items, i);
    let text = pre + w;
    let p = pre.len() as int;
    if i == items.len() {
        assert(skip_blank_spec(text, p, false) == p);
        assert(items.subrange(i, items.len() as int) =~= Seq::<SexpView>::empty());
    } else {
        let first = write_spec(items[i]);
        let tail = write_all_spec(items, i + 1);
        lemma_first_char(items[i]);
        assert(text[p] == first[0]);
        assert(skip_blank_spec(text, p, false) == p);
        let after = seq!['\n'] + tail;
        assert(pre + first + after =~= text);
        assert(after[0] == '\n');
        lemma_read_one(items[i], pre, after);
        let q = p + first.len();
        let next = pre + first + seq!['\n'];
        assert(next + tail =~= text);
        lemma_read_all(items, i + 1, next);
        assert(text[q] == '\n');
        assert(skip_blank_spec(text, q, false) == skip_blank_spec(text, q + 1, false));
        assert(read_all_spec(text, q) == read_all_spec(text, q + 1));
        assert(seq![items[i]] + items.subrange(i + 1, items.len() as int) =~= items.subrange(
            i,
            items.len() as int,
        ));
    }
}

/// The text that writes down a piece reads as that piece alone.
pub proof fn law_read_written(s: SexpView)
    requires
        writable(s),
    ensures
        read_spec(write_spec(s)) == Some(seq![s]),
{
    let w = write_spec(s);
    let none = Seq::<char>::empty();
    lemma_first_char(s);
    assert(none + w + none =~= w);
    lemma_read_one(s, none, none);
    assert(skip_blank_spec(w, 0, false) == 0);
    assert(skip_blank_spec(w, w.len() as int, false) == w.len());
    assert(read_all_spec(w, w.len() as int) == Some(Seq::<SexpView>::empty()));
    assert(seq![s] + Seq::<SexpView>::empty() =~= seq![s]);
}

/// The text that writes down a program reads as that program.
pub proof fn law_read_written_program(items: Seq<SexpView>)
    requires
        writable_from(items, 0),
    ensures
        read_spec(write_all_spec(items, 0)) == Some(items),
{
    let none = Seq::<char>::empty();
    assert(none + write_all_spec(items, 0) =~= write_all_spec(items, 0));
    lemma_read_all(items, 0, none);
    assert(items.subrange(0, items.len() as int) =~= items);
}

} // verus!
