//! Links in the terminal's text.
use vstd::prelude::*;
use crate::cells::Attrs;
use crate::cells::CellSnap;
use crate::cells::GridSnap;
use crate::cells::cell_attrs;
use crate::text::chars_of;
use crate::text::found_at;
use crate::text::slice_of;
use crate::text::string_of;

verus! {

/// Characters that end a link.
pub open spec fn is_delimiter(c: char) -> bool {
    c == ' ' || c == '\t' || c == '"' || c == '\'' || c == '<' || c == '>' || c == '`' || c == '|'
        || c == '(' || c == ')' || c == '[' || c == ']' || c == '{' || c == '}'
}

/// The length of the `https://` or `http://` at `i`; 0 where there is none.
pub open spec fn scheme_len(t: Seq<char>, i: int) -> int {
    if crate::text::begins_with(t.skip(i), "https://"@) {
        8
    } else if crate::text::begins_with(t.skip(i), "http://"@) {
        7
    } else {
        0
    }
}

/// The first delimiter from `e` on, or the end of the text.
pub open spec fn delimited(t: Seq<char>, e: int) -> int
    decreases t.len() - e,
{
    if e < t.len() && !is_delimiter(t[e]) {
        delimited(t, e + 1)
    } else {
        e
    }
}

/// The end of the link that begins at `i`.
pub open spec fn link_end(t: Seq<char>, i: int) -> int {
    delimited(t, i + scheme_len(t, i))
}

/// The first link from `i` on that covers `col`, links being read from left to
/// right, each from where the one before ended.
pub open spec fn link_span(t: Seq<char>, i: int, col: int) -> Option<(int, int)>
    decreases t.len() - i,
    when 0 <= i
    via link_span_decreases
{
    if i + 7 > t.len() {
        None
    } else if scheme_len(t, i) > 0 {
        let e = link_end(t, i);
        if i <= col < e {
            Some((i, e))
        } else {
            link_span(t, e, col)
        }
    } else {
        link_span(t, i + 1, col)
    }
}

#[via_fn]
proof fn link_span_decreases(t: Seq<char>, i: int, col: int) {
    if i <= t.len() {
        lemma_scheme(t, i);
    }
    lemma_delimited(t, i + scheme_len(t, i));
}

pub proof fn lemma_delimited(t: Seq<char>, e: int)
    ensures
        e <= delimited(t, e),
        e <= t.len() ==> delimited(t, e) <= t.len(),
        forall|j: int| e <= j < delimited(t, e) ==> !is_delimiter(#[trigger] t[j]),
        delimited(t, e) < t.len() ==> is_delimiter(t[delimited(t, e)]),
    decreases t.len() - e,
{
    if e < t.len() && !is_delimiter(t[e]) {
        lemma_delimited(t, e + 1);
    }
}

pub proof fn lemma_scheme(t: Seq<char>, i: int)
    requires
        0 <= i <= t.len(),
    ensures
        scheme_len(t, i) > 0 ==> i + scheme_len(t, i) <= t.len(),
        scheme_len(t, i) == 0 || scheme_len(t, i) >= 7,
        forall|j: int| i <= j < i + scheme_len(t, i) ==> !is_delimiter(#[trigger] t[j]),
{
    reveal_strlit("https://");
    reveal_strlit("http://");
    let n = scheme_len(t, i);
    if n > 0 {
        assert forall|j: int| i <= j < i + n implies !is_delimiter(#[trigger] t[j]) by {
            let s = if n == 8 {
                "https://"@
            } else {
                "http://"@
            };
            assert(t.skip(i).take(n) == s);
            assert(t[j] == t.skip(i).take(n)[j - i]);
        }
    }
}

fn delimiter(c: char) -> (r: bool)
    ensures
        r == is_delimiter(c),
{
    c == ' ' || c == '\t' || c == '"' || c == '\'' || c == '<' || c == '>' || c == '`' || c == '|'
        || c == '(' || c == ')' || c == '[' || c == ']' || c == '{' || c == '}'
}

fn find_in(chars: &Vec<char>, col: usize) -> (r: Option<(usize, usize)>)
    ensures
        match r {
            Some(p) => link_span(chars@, 0, col as int) == Some((p.0 as int, p.1 as int)) && p.0
                <= p.1 <= chars@.len(),
            None => link_span(chars@, 0, col as int) is None,
        },
{
    let n: usize = chars.len();
    let mut i: usize = 0;
    while n >= 7 && i <= n - 7
        invariant
            n == chars@.len(),
            i <= n,
            link_span(chars@, 0, col as int) == link_span(chars@, i as int, col as int),
        decreases n - i,
    {
        let https: bool = found_at(chars, i, "https://");
        let http: bool = found_at(chars, i, "http://");
        proof {
            lemma_scheme(chars@, i as int);
        }
        if https || http {
            let skip: usize = if https {
                8
            } else {
                7
            };
            let mut e: usize = i + skip;
            while e < n && !delimiter(chars[e])
                invariant
                    n == chars@.len(),
                    e <= n,
                    delimited(chars@, i + skip) == delimited(chars@, e as int),
                ensures
                    e <= n,
                    delimited(chars@, i + skip) == e,
                decreases n - e,
            {
                e += 1;
            }
            proof {
                lemma_delimited(chars@, i + skip);
            }
            if col >= i && col < e {
                return Some((i, e));
            }
            i = e;
        } else {
            i += 1;
        }
    }
    None
}

/// The span of the link over position `col`, if there is one.
pub fn find_url_span(text: &str, col: usize) -> (r: Option<(usize, usize)>)
    ensures
        match r {
            Some(p) => link_span(text@, 0, col as int) == Some((p.0 as int, p.1 as int)),
            None => link_span(text@, 0, col as int) is None,
        },
{
    let chars: Vec<char> = chars_of(text);
    find_in(&chars, col)
}

/// The text of a screen row, one character per cell: the second column of a
/// wide character and an empty cell are blanks.
pub open spec fn row_text(cells: Seq<CellSnap>, row: i32) -> Seq<char>
    decreases cells.len(),
{
    if cells.len() == 0 {
        seq![]
    } else {
        let rest = row_text(cells.drop_last(), row);
        let cs = cells.last();
        if cs.row == row {
            rest.push(
                if cs.cell.c == '\0' || crate::cells::attrs_of(cs.cell.flags).spacer {
                    ' '
                } else {
                    cs.cell.c
                },
            )
        } else {
            rest
        }
    }
}

/// The columns of the link over a screen cell.
pub open spec fn link_at(s: GridSnap, row: i32, col: int) -> Option<(int, int)> {
    link_span(row_text(s.cells@, row), 0, col)
}

fn row_chars(snap: &GridSnap, row: i32) -> (chars: Vec<char>)
    ensures
        chars@ == row_text(snap.cells@, row),
{
    let mut chars: Vec<char> = Vec::new();
    for i in 0..snap.cells.len()
        invariant
            chars@ == row_text(snap.cells@.take(i as int), row),
    {
        let cs: CellSnap = snap.cells[i];
        assert(snap.cells@.take(i as int + 1).drop_last() =~= snap.cells@.take(i as int));
        if cs.row as i64 == row as i64 {
            let a: Attrs = cell_attrs(cs.cell.flags);
            chars.push(
                if cs.cell.c == '\0' || a.spacer {
                    ' '
                } else {
                    cs.cell.c
                },
            );
        }
    }
    assert(snap.cells@.take(snap.cells@.len() as int) =~= snap.cells@);
    chars
}

/// The link at a screen cell and its columns, if there is one.
pub fn url_at(snap: &GridSnap, row: i32, col: usize) -> (r: Option<(String, usize, usize)>)
    ensures
        match link_at(*snap, row, col as int) {
            Some((s, e)) => r is Some && r->Some_0.0@ == row_text(snap.cells@, row).subrange(s, e)
                && r->Some_0.1 == s && r->Some_0.2 == e && s <= e,
            None => r is None,
        },
{
    let chars: Vec<char> = row_chars(snap, row);
    match find_in(&chars, col) {
        Some(p) => Some((string_of(&slice_of(&chars, p.0, p.1)), p.0, p.1)),
        None => None,
    }
}

// ---- laws ----

/// A link that is found covers the position, begins with its scheme, holds no
/// delimiter and goes on up to one or to the end of the text.
pub proof fn law_link_found(t: Seq<char>, col: int)
    ensures
        link_span(t, 0, col) matches Some((s, e)) ==> {
            &&& 0 <= s <= col < e <= t.len()
            &&& scheme_len(t, s) > 0
            &&& s + scheme_len(t, s) <= e
            &&& forall|j: int| s <= j < e ==> !is_delimiter(#[trigger] t[j])
            &&& e < t.len() ==> is_delimiter(t[e])
        },
{
    lemma_link_found(t, 0, col);
}

proof fn lemma_link_found(t: Seq<char>, i: int, col: int)
    requires
        0 <= i <= t.len(),
    ensures
        link_span(t, i, col) matches Some((s, e)) ==> {
            &&& i <= s <= col < e <= t.len()
            &&& scheme_len(t, s) > 0
            &&& s + scheme_len(t, s) <= e
            &&& forall|j: int| s <= j < e ==> !is_delimiter(#[trigger] t[j])
            &&& e < t.len() ==> is_delimiter(t[e])
        },
    decreases t.len() - i,
{
    lemma_scheme(t, i);
    lemma_delimited(t, i + scheme_len(t, i));
    if i + 7 <= t.len() {
        if scheme_len(t, i) > 0 {
            let e = link_end(t, i);
            if !(i <= col < e) {
                lemma_link_found(t, e, col);
            }
        } else {
            lemma_link_found(t, i + 1, col);
        }
    }
}

/// No link is missed: a position that the link beginning at `i` covers is on a
/// link that is found.
pub proof fn law_no_link_missed(t: Seq<char>, i: int, col: int)
    requires
        0 <= i <= t.len(),
        scheme_len(t, i) > 0,
        i <= col < link_end(t, i),
    ensures
        link_span(t, 0, col) is Some,
{
    lemma_no_link_missed(t, 0, i, col);
}

proof fn lemma_no_link_missed(t: Seq<char>, from: int, i: int, col: int)
    requires
        0 <= from <= i <= t.len(),
        scheme_len(t, i) > 0,
        i <= col < link_end(t, i),
    ensures
        link_span(t, from, col) is Some,
    decreases t.len() - from,
{
    lemma_scheme(t, i);
    lemma_scheme(t, from);
    lemma_delimited(t, i + scheme_len(t, i));
    lemma_delimited(t, from + scheme_len(t, from));
    if scheme_len(t, from) > 0 {
        let e = link_end(t, from);
        if !(from <= col < e) {
            if i < e {
                // The link at `i` lies inside the one at `from`, so it ends no later.
                assert(link_end(t, i) <= e) by {
                    if e < link_end(t, i) {
                        assert(is_delimiter(t[e]));
                        if e < i + scheme_len(t, i) {
                            assert(!is_delimiter(t[e]));
                        } else {
                            assert(!is_delimiter(t[e]));
                        }
                    }
                }
            } else {
                lemma_no_link_missed(t, e, i, col);
            }
        }
    } else {
        lemma_no_link_missed(t, from + 1, i, col);
    }
}

} // verus!
