//! What the terminal shows for a buffer, as a list of directives for the
//! terminal collaborator: clear, move the cursor, print text.

use vstd::prelude::*;

use crate::buffer::{Buffer, BufferView, Mode};

verus! {

/// One instruction to the terminal. Coordinates are 0-based (column, row).
pub enum Directive {
    Clear,
    MoveTo(usize, usize),
    Print(String),
}

/// A directive with its text as characters.
pub ghost enum DirectiveView {
    Clear,
    MoveTo(int, int),
    Print(Seq<char>),
}

impl View for Directive {
    type V = DirectiveView;

    open spec fn view(&self) -> DirectiveView {
        match self {
            Directive::Clear => DirectiveView::Clear,
            Directive::MoveTo(col, row) => DirectiveView::MoveTo(*col as int, *row as int),
            Directive::Print(s) => DirectiveView::Print(s@),
        }
    }
}

/// The views of a sequence of directives.
pub open spec fn directive_views(d: Seq<Directive>) -> Seq<DirectiveView> {
    d.map_values(|x: Directive| x@)
}

/// `n`, or 0 where `n` is negative.
pub open spec fn floor0(n: int) -> int {
    if n < 0 {
        0
    } else {
        n
    }
}

/// The status-line label of a mode.
pub open spec fn mode_label(mode: Mode) -> Seq<char> {
    match mode {
        Mode::Normal | Mode::NormalPrefix => "NORMAL "@,
        Mode::Insert => "INSERT "@,
        Mode::Command => "COMMAND"@,
    }
}

/// Each line printed at the start of its row, from row 0 down.
pub open spec fn line_directives(lines: Seq<Seq<char>>) -> Seq<DirectiveView> {
    Seq::new(
        (2 * lines.len()) as nat,
        |k: int|
            if k % 2 == 0 {
                DirectiveView::MoveTo(0, k / 2)
            } else {
                DirectiveView::Print(lines[k / 2])
            },
    )
}

/// The whole screen: the document from the top row, the mode label and the
/// prefix on the second-to-last row, the command line on the last row in
/// Command mode, and last the cursor moved to the buffer's cursor.
pub open spec fn screen(v: BufferView) -> Seq<DirectiveView> {
    let status_row = floor0(v.height - 2);
    let command_row = floor0(v.height - 1);
    let status = seq![
        DirectiveView::MoveTo(1, status_row),
        DirectiveView::Print(mode_label(v.mode)),
        DirectiveView::MoveTo(floor0(v.width - 10), status_row),
        DirectiveView::Print(v.normal_prefix),
    ];
    let command = if v.mode == Mode::Command {
        seq![DirectiveView::MoveTo(0, command_row), DirectiveView::Print(seq![':'] + v.command)]
    } else {
        Seq::empty()
    };
    seq![DirectiveView::Clear] + line_directives(v.lines) + status + command + seq![
        DirectiveView::MoveTo(v.x, v.y),
    ]
}

fn mode_label_text(mode: Mode) -> (r: String)
    ensures
        r@ == mode_label(mode),
{
    match mode {
        Mode::Normal | Mode::NormalPrefix => "NORMAL ".to_owned(),
        Mode::Insert => "INSERT ".to_owned(),
        Mode::Command => "COMMAND".to_owned(),
    }
}

impl Buffer {
    /// The directives that draw this buffer on a cleared screen.
    pub fn frame(&self) -> (r: Vec<Directive>)
        ensures
            directive_views(r@) == screen(self@),
    {
        let ghost v = self@;
        let mut r: Vec<Directive> = Vec::new();
        r.push(Directive::Clear);
        let mut i: usize = 0;
        while i < self.lines.len()
            invariant
                v == self@,
                i <= self.lines.len(),
                directive_views(r@) == seq![DirectiveView::Clear] + line_directives(v.lines).take(
                    2 * i,
                ),
            decreases self.lines.len() - i,
        {
            let ghost before = directive_views(r@);
            r.push(Directive::MoveTo(0, i));
            r.push(Directive::Print(self.lines[i].clone()));
            assert(directive_views(r@) =~= before.push(DirectiveView::MoveTo(0, i as int)).push(
                DirectiveView::Print(v.lines[i as int]),
            ));
            assert(line_directives(v.lines).take(2 * i + 2) =~= line_directives(v.lines).take(
                2 * i,
            ).push(DirectiveView::MoveTo(0, i as int)).push(DirectiveView::Print(v.lines[i as int])));
            i += 1;
        }
        assert(line_directives(v.lines).take(2 * i) =~= line_directives(v.lines));
        let status_row = self.height.saturating_sub(2);
        r.push(Directive::MoveTo(1, status_row));
        r.push(Directive::Print(mode_label_text(self.mode)));
        r.push(Directive::MoveTo(self.width.saturating_sub(10), status_row));
        r.push(Directive::Print(self.normal_prefix.clone()));
        if self.mode == Mode::Command {
            r.push(Directive::MoveTo(0, self.height.saturating_sub(1)));
            r.push(Directive::Print(self.command_line()));
        }
        r.push(Directive::MoveTo(self.x, self.y));
        assert(directive_views(r@) =~= screen(v));
        r
    }

    /// The command line as shown: `:` then the typed command.
    fn command_line(&self) -> (r: String)
        ensures
            r@ == seq![':'] + self@.command,
    {
        let mut shown = String::new();
        crate::text::push_char(&mut shown, ':');
        shown.append(self.command.as_str());
        assert(shown@ =~= seq![':'] + self@.command);
        shown
    }

    /// Where the cursor goes while a command is typed: on the last row, just
    /// after the command text. There is no such place outside Command mode.
    pub fn command_cursor(&self) -> (r: Option<(usize, usize)>)
        ensures
            r is Some <==> self@.mode == Mode::Command,
            r matches Some((col, row)) ==> col as int == self@.command.len() + 1 && row as int
                == floor0(self@.height - 1),
    {
        if self.mode == Mode::Command {
            let end = self.command_line().as_str().unicode_len();
            Some((end, self.height.saturating_sub(1)))
        } else {
            None
        }
    }
}

} // verus!
