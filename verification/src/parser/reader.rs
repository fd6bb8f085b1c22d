//! From program text to nested lists of words.
//!
//! The reader knows brackets, quotation marks, string literals, comments and
//! blanks, and nothing of what the words mean: that is the builder's part.

use vstd::prelude::*;
use vstd::string::*;

verus! {

/// A piece of program text.
#[allow(non_camel_case_types)]
#[derive(Debug, PartialEq)]
pub enum Sexp {
    /// A word: a run of characters without blanks or delimiters.
    ATOM(String),
    /// A string literal, with its quotes.
    TEXT(String),
    /// A piece behind a quotation mark.
    QUOTE(Box<Sexp>),
    /// The pieces between a pair of brackets.
    LIST(Vec<Sexp>),
}

/// The view of a [`Sexp`].
#[allow(non_camel_case_types)]
pub enum SexpView {
    ATOM(Seq<char>),
    TEXT(Seq<char>),
    QUOTE(Box<SexpView>),
    LIST(Seq<SexpView>),
}

/// The view of a piece.
pub open spec fn sexp_view(s: Sexp) -> SexpView
    decreases s,
{
    match s {
        Sexp::ATOM(a) => SexpView::ATOM(a@),
        Sexp::TEXT(t) => SexpView::TEXT(t@),
        Sexp::QUOTE(q) => SexpView::QUOTE(Box::new(sexp_view(*q))),
        Sexp::LIST(items) => SexpView::LIST(sexps_view(items@)),
    }
}

/// The views of a sequence of pieces.
pub open spec fn sexps_view(items: Seq<Sexp>) -> Seq<SexpView>
    decreases items,
{
    Seq::new(
        items.len(),
        |i: int|
            if 0 <= i < items.len() {
                sexp_view(items[i])
            } else {
                arbitrary()
            },
    )
}

impl View for Sexp {
    type V = SexpView;

    open spec fn view(&self) -> SexpView {
        sexp_view(*self)
    }
}

/// The characters that separate pieces and mean nothing.
pub open spec fn is_blank(c: char) -> bool {
    c == ' ' || c == '\t' || c == '\n' || c == '\r'
}

/// The characters that end a word.
pub open spec fn is_delimiter(c: char) -> bool {
    is_blank(c) || c == '(' || c == ')' || c == '\'' || c == '"' || c == ';'
}

/// The first position at or after `pos` that holds neither a blank nor part of
/// a comment; the length of `s` where there is none. A comment runs from a
/// semicolon to the end of its line; `in_comment` says that `pos` lies in one.
pub open spec fn skip_blank_spec(s: Seq<char>, pos: int, in_comment: bool) -> int
    decreases s.len() - pos,
{
    if pos < 0 || pos >= s.len() {
        pos
    } else if in_comment {
        skip_blank_spec(s, pos + 1, s[pos] != '\n')
    } else if is_blank(s[pos]) {
        skip_blank_spec(s, pos + 1, false)
    } else if s[pos] == ';' {
        skip_blank_spec(s, pos + 1, true)
    } else {
        pos
    }
}

/// The first position at or after `pos` that holds a delimiter; the length of
/// `s` where there is none.
pub open spec fn atom_end_spec(s: Seq<char>, pos: int) -> int
    decreases s.len() - pos,
{
    if pos < 0 || pos >= s.len() || is_delimiter(s[pos]) {
        pos
    } else {
        atom_end_spec(s, pos + 1)
    }
}

/// The position behind the quote that closes a string literal whose contents
/// begin at `pos`; nothing where the literal is not closed. A backslash takes
/// the next character with it.
pub open spec fn text_end_spec(s: Seq<char>, pos: int) -> Option<int>
    decreases s.len() - pos,
{
    if pos < 0 || pos >= s.len() {
        None
    } else if s[pos] == '"' {
        Some(pos + 1)
    } else if s[pos] == '\\' {
        if pos + 1 < s.len() {
            text_end_spec(s, pos + 2)
        } else {
            None
        }
    } else {
        text_end_spec(s, pos + 1)
    }
}

/// The piece that begins at `pos`, with the position behind it.
pub open spec fn read_one_spec(s: Seq<char>, pos: int) -> Option<(SexpView, int)>
    decreases s.len() - pos, 0nat,
{
    if pos < 0 || pos >= s.len() {
        None
    } else if s[pos] == '(' {
        match read_rest_spec(s, pos + 1) {
            Some((items, end)) => Some((SexpView::LIST(items), end)),
            None => None,
        }
    } else if s[pos] == ')' {
        None
    } else if s[pos] == '\'' {
        let p = skip_blank_spec(s, pos + 1, false);
        if pos < p < s.len() {
            match read_one_spec(s, p) {
                Some((quoted, end)) => Some((SexpView::QUOTE(Box::new(quoted)), end)),
                None => None,
            }
        } else {
            None
        }
    } else if s[pos] == '"' {
        match text_end_spec(s, pos + 1) {
            Some(end) => if pos < end <= s.len() {
                Some((SexpView::TEXT(s.subrange(pos, end)), end))
            } else {
                None
            },
            None => None,
        }
    } else {
        let end = atom_end_spec(s, pos);
        if pos < end <= s.len() {
            Some((SexpView::ATOM(s.subrange(pos, end)), end))
        } else {
            None
        }
    }
}

/// The pieces from `pos` up to the closing bracket of the list they stand in,
/// with the position behind that bracket.
pub open spec fn read_rest_spec(s: Seq<char>, pos: int) -> Option<(Seq<SexpView>, int)>
    decreases s.len() - pos, 1nat,
{
    let p = skip_blank_spec(s, pos, false);
    if p < pos || p >= s.len() {
        None
    } else if s[p] == ')' {
        Some((Seq::empty(), p + 1))
    } else {
        match read_one_spec(s, p) {
            Some((first, q)) => if p < q <= s.len() {
                match read_rest_spec(s, q) {
                    Some((rest, end)) => Some((seq![first] + rest, end)),
                    None => None,
                }
            } else {
                None
            },
            None => None,
        }
    }
}

/// The pieces from `pos` to the end of the text.
pub open spec fn read_all_spec(s: Seq<char>, pos: int) -> Option<Seq<SexpView>>
    decreases s.len() - pos, 1nat,
{
    let p = skip_blank_spec(s, pos, false);
    if p < pos {
        None
    } else if p >= s.len() {
        Some(Seq::empty())
    } else {
        match read_one_spec(s, p) {
            Some((first, q)) => if p < q <= s.len() {
                match read_all_spec(s, q) {
                    Some(rest) => Some(seq![first] + rest),
                    None => None,
                }
            } else {
                None
            },
            None => None,
        }
    }
}

/// What reading a whole text gives: its pieces in order, or nothing where a
/// bracket or a string literal is left open, a closing bracket has no partner,
/// or a quotation mark has nothing behind it.
pub open spec fn read_spec(s: Seq<char>) -> Option<Seq<SexpView>> {
    read_all_spec(s, 0)
}

/// The characters of a text.
pub fn to_chars(text: &str) -> (chars: Vec<char>)
    ensures
        chars@ == text@,
{
    let mut chars: Vec<char> = Vec::new();
    for c in it: text.chars()
        invariant
            chars@ == it.seq().take(it.index()),
    {
        chars.push(c);
    }
    chars
}

/// Whether a character is a blank.
pub fn is_blank_char(c: char) -> (b: bool)
    ensures
        b == is_blank(c),
{
    c == ' ' || c == '\t' || c == '\n' || c == '\r'
}

/// Whether a character ends a word.
pub fn is_delimiter_char(c: char) -> (b: bool)
    ensures
        b == is_delimiter(c),
{
    is_blank_char(c) || c == '(' || c == ')' || c == '\'' || c == '"' || c == ';'
}

fn skip_blank(chars: &Vec<char>, pos: usize) -> (p: usize)
    requires
        pos <= chars.len(),
    ensures
        p == skip_blank_spec(chars@, pos as int, false),
        pos <= p <= chars.len(),
{
    let mut p: usize = pos;
    let mut in_comment = false;
    while p < chars.len() && (in_comment || is_blank_char(chars[p]) || chars[p] == ';')
        invariant
            pos <= p <= chars.len(),
            skip_blank_spec(chars@, pos as int, false) == skip_blank_spec(
                chars@,
                p as int,
                in_comment,
            ),
        decreases chars.len() - p,
    {
        if in_comment {
            in_comment = chars[p] != '\n';
        } else if chars[p] == ';' {
            in_comment = true;
        }
        p = p + 1;
    }
    p
}

fn atom_end(chars: &Vec<char>, pos: usize) -> (end: usize)
    requires
        pos <= chars.len(),
    ensures
        end == atom_end_spec(chars@, pos as int),
        pos <= end <= chars.len(),
{
    let mut end: usize = pos;
    while end < chars.len() && !is_delimiter_char(chars[end])
        invariant
            pos <= end <= chars.len(),
            atom_end_spec(chars@, pos as int) == atom_end_spec(chars@, end as int),
        decreases chars.len() - end,
    {
        end = end + 1;
    }
    end
}

fn text_end(chars: &Vec<char>, pos: usize) -> (end: Option<usize>)
    requires
        pos <= chars.len(),
    ensures
        match end {
            Some(e) => text_end_spec(chars@, pos as int) == Some(e as int) && pos < e
                <= chars.len(),
            None => text_end_spec(chars@, pos as int) is None,
        },
{
    let mut p: usize = pos;
    while p < chars.len()
        invariant
            pos <= p <= chars.len(),
            text_end_spec(chars@, pos as int) == text_end_spec(chars@, p as int),
        decreases chars.len() - p,
    {
        let c = chars[p];
        if c == '"' {
            return Some(p + 1);
        } else if c == '\\' {
            if p + 1 < chars.len() {
                p = p + 2;
            } else {
                return None;
            }
        } else {
            p = p + 1;
        }
    }
    None
}

/// Joins pieces already read to what the rest of a list reads as.
pub open spec fn prepend(front: Seq<SexpView>, rest: Option<(Seq<SexpView>, int)>) -> Option<
    (Seq<SexpView>, int),
> {
    match rest {
        Some((items, end)) => Some((front + items, end)),
        None => None,
    }
}

/// Joins pieces already read to what the rest of a text reads as.
pub open spec fn prepend_all(front: Seq<SexpView>, rest: Option<Seq<SexpView>>) -> Option<
    Seq<SexpView>,
> {
    match rest {
        Some(items) => Some(front + items),
        None => None,
    }
}

fn read_one(text: &str, chars: &Vec<char>, pos: usize) -> (r: Option<(Sexp, usize)>)
    requires
        text@ == chars@,
        pos < chars.len(),
    ensures
        match r {
            Some((piece, end)) => read_one_spec(chars@, pos as int) == Some((piece@, end as int))
                && pos < end <= chars.len(),
            None => read_one_spec(chars@, pos as int) is None,
        },
    decreases chars.len() - pos, 0nat,
{
    let c = chars[pos];
    if c == '(' {
        match read_rest(text, chars, pos + 1) {
            Some((items, end)) => Some((Sexp::LIST(items), end)),
            None => None,
        }
    } else if c == ')' {
        None
    } else if c == '\'' {
        let p = skip_blank(chars, pos + 1);
        if p >= chars.len() {
            return None;
        }
        match read_one(text, chars, p) {
            Some((quoted, end)) => Some((Sexp::QUOTE(Box::new(quoted)), end)),
            None => None,
        }
    } else if c == '"' {
        match text_end(chars, pos + 1) {
            Some(end) => {
                let literal = String::from_str(text.substring_char(pos, end));
                Some((Sexp::TEXT(literal), end))
            },
            None => None,
        }
    } else {
        let end = atom_end(chars, pos);
        if end == pos {
            return None;
        }
        let word = String::from_str(text.substring_char(pos, end));
        Some((Sexp::ATOM(word), end))
    }
}

fn read_rest(text: &str, chars: &Vec<char>, pos: usize) -> (r: Option<(Vec<Sexp>, usize)>)
    requires
        text@ == chars@,
        pos <= chars.len(),
    ensures
        match r {
            Some((items, end)) => read_rest_spec(chars@, pos as int) == Some(
                (sexps_view(items@), end as int),
            ) && pos < end <= chars.len(),
            None => read_rest_spec(chars@, pos as int) is None,
        },
    decreases chars.len() - pos, 1nat,
{
    let mut items: Vec<Sexp> = Vec::new();
    let mut cur: usize = pos;
    assert(sexps_view(items@) + Seq::<SexpView>::empty() =~= Seq::<SexpView>::empty());
    loop
        invariant
            text@ == chars@,
            pos <= cur <= chars.len(),
            read_rest_spec(chars@, pos as int) == prepend(
                sexps_view(items@),
                read_rest_spec(chars@, cur as int),
            ),
        decreases chars.len() - cur,
    {
        let p = skip_blank(chars, cur);
        if p >= chars.len() {
            return None;
        }
        if chars[p] == ')' {
            assert(sexps_view(items@) + Seq::<SexpView>::empty() =~= sexps_view(items@));
            return Some((items, p + 1));
        }
        match read_one(text, chars, p) {
            Some((piece, q)) => {
                proof {
                    let front = sexps_view(items@);
                    let rest = read_rest_spec(chars@, q as int);
                    assert(sexps_view(items@.push(piece)) =~= front + seq![piece@]);
                    if let Some((more, end)) = rest {
                        assert(front + (seq![piece@] + more) =~= (front + seq![piece@]) + more);
                    }
                }
                items.push(piece);
                cur = q;
            },
            None => {
                return None;
            },
        }
    }
}

/// Reads a whole text into its pieces.
pub fn read(text: &str) -> (r: Option<Vec<Sexp>>)
    ensures
        match r {
            Some(items) => read_spec(text@) == Some(sexps_view(items@)),
            None => read_spec(text@) is None,
        },
{
    let chars = to_chars(text);
    let mut items: Vec<Sexp> = Vec::new();
    let mut cur: usize = 0;
    assert(sexps_view(items@) =~= Seq::<SexpView>::empty());
    loop
        invariant
            text@ == chars@,
            cur <= chars.len(),
            read_all_spec(chars@, 0) == prepend_all(
                sexps_view(items@),
                read_all_spec(chars@, cur as int),
            ),
        decreases chars.len() - cur,
    {
        let p = skip_blank(&chars, cur);
        if p >= chars.len() {
            assert(sexps_view(items@) + Seq::<SexpView>::empty() =~= sexps_view(items@));
            return Some(items);
        }
        match read_one(text, &chars, p) {
            Some((piece, q)) => {
                proof {
                    let front = sexps_view(items@);
                    let rest = read_all_spec(chars@, q as int);
                    assert(sexps_view(items@.push(piece)) =~= front + seq![piece@]);
                    if let Some(more) = rest {
                        assert(front + (seq![piece@] + more) =~= (front + seq![piece@]) + more);
                    }
                }
                items.push(piece);
                cur = q;
            },
            None => {
                return None;
            },
        }
    }
}

} // verus!
