//! Documents as text: splitting a file's contents into lines, and joining
//! lines back into the saved form.

use vstd::prelude::*;

verus! {

/// The character views of a sequence of strings.
pub open spec fn views(v: Seq<String>) -> Seq<Seq<char>> {
    v.map_values(|l: String| l@)
}

/// The pieces of `s` between its newline characters, in order; there is
/// always one more piece than there are newlines.
pub open spec fn pieces(s: Seq<char>) -> Seq<Seq<char>>
    decreases s.len(),
{
    if s.len() == 0 {
        seq![Seq::empty()]
    } else {
        let p = pieces(s.drop_last());
        if s.last() == '\n' {
            p.push(Seq::empty())
        } else {
            p.update(p.len() - 1, p.last().push(s.last()))
        }
    }
}

/// A line with the carriage return of a `\r\n` ending taken off.
pub open spec fn strip_cr(l: Seq<char>) -> Seq<char> {
    if l.len() > 0 && l.last() == '\r' {
        l.drop_last()
    } else {
        l
    }
}

/// The lines of `s`: split at `\n` or `\r\n`, with the final line ending
/// optional (a trailing newline does not start another line).
pub open spec fn lines_of(s: Seq<char>) -> Seq<Seq<char>> {
    let p = pieces(s);
    let done = p.drop_last().map_values(|l: Seq<char>| strip_cr(l));
    if p.last().len() == 0 {
        done
    } else {
        done.push(p.last())
    }
}

/// The document that a file's contents open as: its lines, or one empty
/// line when it has none.
pub open spec fn document_of(s: Seq<char>) -> Seq<Seq<char>> {
    if lines_of(s).len() == 0 {
        seq![Seq::empty()]
    } else {
        lines_of(s)
    }
}

/// The saved form of a document: every line followed by a newline.
pub open spec fn joined(ls: Seq<Seq<char>>) -> Seq<char>
    decreases ls.len(),
{
    if ls.len() == 0 {
        Seq::empty()
    } else {
        joined(ls.drop_last()) + ls.last() + seq!['\n']
    }
}

/// Relies on `String::push`: the character is appended at the end.
#[verifier::external_body]
pub(crate) fn push_char(s: &mut String, c: char)
    ensures
        final(s)@ == old(s)@.push(c),
{
    s.push(c)
}

pub proof fn lemma_pieces_len(s: Seq<char>)
    ensures
        pieces(s).len() >= 1,
    decreases s.len(),
{
    if s.len() > 0 {
        lemma_pieces_len(s.drop_last());
    }
}

/// Joining the pieces of a text back together with newlines gives the text.
proof fn lemma_pieces_rejoin(s: Seq<char>)
    ensures
        joined(pieces(s).drop_last()) + pieces(s).last() == s,
    decreases s.len(),
{
    if s.len() > 0 {
        let t = s.drop_last();
        let p = pieces(t);
        lemma_pieces_len(t);
        lemma_pieces_rejoin(t);
        if s.last() == '\n' {
            assert(pieces(s).drop_last() =~= p);
            assert(p =~= p.drop_last().push(p.last()));
            assert(joined(p) == joined(p.drop_last()) + p.last() + seq!['\n']);
        } else {
            assert(pieces(s).drop_last() =~= p.drop_last());
        }
        assert(s =~= t.push(s.last()));
        assert(joined(pieces(s).drop_last()) + pieces(s).last() =~= s);
    }
}

/// A text without carriage returns has none in any of its pieces.
proof fn lemma_pieces_no_cr(s: Seq<char>)
    requires
        forall|k: int| 0 <= k < s.len() ==> s[k] != '\r',
    ensures
        forall|i: int, j: int|
            0 <= i < pieces(s).len() && 0 <= j < pieces(s)[i].len() ==> pieces(s)[i][j] != '\r',
    decreases s.len(),
{
    if s.len() > 0 {
        lemma_pieces_len(s.drop_last());
        lemma_pieces_no_cr(s.drop_last());
    }
}

/// A document without carriage returns saves to a text without them.
proof fn lemma_joined_no_cr(ls: Seq<Seq<char>>)
    requires
        forall|i: int, j: int| 0 <= i < ls.len() && 0 <= j < ls[i].len() ==> ls[i][j] != '\r',
    ensures
        forall|k: int| 0 <= k < joined(ls).len() ==> joined(ls)[k] != '\r',
    decreases ls.len(),
{
    if ls.len() > 0 {
        lemma_joined_no_cr(ls.drop_last());
        let a = joined(ls.drop_last());
        assert forall|k: int| 0 <= k < joined(ls).len() implies joined(ls)[k] != '\r' by {
            if k >= a.len() && k < a.len() + ls.last().len() {
                assert(joined(ls)[k] == ls[ls.len() - 1][k - a.len()]);
            }
        }
    }
}

/// Saving a document, opening the saved text again and saving that gives
/// back the same text, for any document whose lines hold no carriage return.
pub proof fn lemma_save_reopen_stable(ls: Seq<Seq<char>>)
    requires
        ls.len() >= 1,
        forall|i: int, j: int| 0 <= i < ls.len() && 0 <= j < ls[i].len() ==> ls[i][j] != '\r',
    ensures
        joined(document_of(joined(ls))) == joined(ls),
{
    let s = joined(ls);
    lemma_joined_no_cr(ls);
    lemma_pieces_no_cr(s);
    lemma_pieces_rejoin(s);
    lemma_pieces_len(s.drop_last());
    assert(s.last() == '\n');
    let p = pieces(s);
    assert(p.last().len() == 0);
    assert(p.drop_last().map_values(|l: Seq<char>| strip_cr(l)) =~= p.drop_last());
    assert(lines_of(s) == p.drop_last());
    assert(joined(p.drop_last()) =~= s);
}

/// Splits `text` into the lines of the document it opens as.
pub fn split_document(text: &String) -> (r: Vec<String>)
    ensures
        views(r@) == document_of(text@),
{
    let mut done: Vec<String> = Vec::new();
    let mut cur = String::new();
    let ghost s = text@;
    for c in it: text.as_str().chars()
        invariant
            it.seq() == s,
            views(done@) == pieces(s.take(it.index() as int)).drop_last().map_values(
                |l: Seq<char>| strip_cr(l),
            ),
            cur@ == pieces(s.take(it.index() as int)).last(),
    {
        let ghost idx = it.index() as int;
        let ghost before = s.take(idx);
        let ghost p = pieces(before);
        assert(s.take(idx + 1).drop_last() =~= before);
        proof { lemma_pieces_len(before); }
        if c == '\n' {
            let n = cur.as_str().unicode_len();
            let line = if n > 0 && cur.as_str().get_char(n - 1) == '\r' {
                let l = cur.as_str().substring_char(0, n - 1).to_owned();
                assert(l@ =~= cur@.drop_last());
                l
            } else {
                cur
            };
            assert(s.take(idx + 1).last() == '\n');
            let ghost old_views = views(done@);
            done.push(line);
            cur = String::new();
            assert(views(done@) =~= old_views.push(line@));
            assert(p.map_values(|l: Seq<char>| strip_cr(l)) =~= p.drop_last().map_values(
                |l: Seq<char>| strip_cr(l),
            ).push(strip_cr(p.last())));
            assert(pieces(s.take(idx + 1)).drop_last() =~= p);
            assert(views(done@) =~= pieces(s.take(idx + 1)).drop_last().map_values(
                |l: Seq<char>| strip_cr(l),
            ));
        } else {
            push_char(&mut cur, c);
            assert(pieces(s.take(idx + 1)).drop_last() =~= p.drop_last());
        }
    }
    proof { lemma_pieces_len(s); }
    assert(s.take(s.len() as int) == s);
    if cur.as_str().unicode_len() > 0 {
        done.push(cur);
    }
    if done.len() == 0 {
        done.push(String::new());
    }
    done
}

} // verus!
