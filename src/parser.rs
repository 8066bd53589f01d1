//! Splits an input line into statements and each statement into pipeline
//! stages: two passes, first on `;`, then on `|`, then into words.

use vstd::prelude::*;

use crate::text::{split_on, split_words, trim_text, split_spec, trimmed, views, words};

verus! {

/// One executable invocation: a command word and its argument words.
pub struct Stage {
    pub program: String,
    pub args: Vec<String>,
}

impl View for Stage {
    /// All words of the stage, the command word first.
    type V = Seq<Seq<char>>;

    open spec fn view(&self) -> Seq<Seq<char>> {
        seq![self.program@] + views(self.args@)
    }
}

/// The stages of one pipeline, in order.
pub struct Statement {
    pub stages: Vec<Stage>,
}

impl View for Statement {
    type V = Seq<Seq<Seq<char>>>;

    open spec fn view(&self) -> Seq<Seq<Seq<char>>> {
        self.stages@.map_values(|st: Stage| st@)
    }
}

/// The word lists of the stage texts `pieces`, leaving out the empty ones.
pub open spec fn stages_of_pieces(pieces: Seq<Seq<char>>) -> Seq<Seq<Seq<char>>>
    decreases pieces.len(),
{
    if pieces.len() == 0 {
        Seq::empty()
    } else {
        let init = stages_of_pieces(pieces.drop_last());
        let w = words(trimmed(pieces.last()));
        if w.len() == 0 {
            init
        } else {
            init.push(w)
        }
    }
}

/// The stages of the statement text `text`.
pub open spec fn statement_spec(text: Seq<char>) -> Seq<Seq<Seq<char>>> {
    stages_of_pieces(split_spec(trimmed(text), '|'))
}

/// The statements of the line `line`, one for each `;`-separated piece.
pub open spec fn line_spec(line: Seq<char>) -> Seq<Seq<Seq<Seq<char>>>> {
    split_spec(line, ';').map_values(|t: Seq<char>| statement_spec(t))
}

impl Statement {
    /// The number of stages.
    pub fn len(&self) -> (r: usize)
        ensures
            r == self@.len(),
    {
        self.stages.len()
    }

    /// Whether the statement has no stage, and so runs nothing.
    pub fn is_empty(&self) -> (r: bool)
        ensures
            r == (self@.len() == 0),
    {
        self.stages.len() == 0
    }
}

/// Parses one statement: splits it on `|` and each stage text into words.
/// Stage texts with no word give no stage.
pub fn parse_statement(text: &str) -> (r: Statement)
    ensures
        r@ == statement_spec(text@),
{
    let t = trim_text(text);
    let pieces = split_on(t.as_str(), '|');
    let mut stages: Vec<Stage> = Vec::new();
    let mut i: usize = 0;
    proof {
        assert(views(pieces@).take(0) =~= Seq::<Seq<char>>::empty());
        assert(stages@.map_values(|st: Stage| st@) =~= Seq::<Seq<Seq<char>>>::empty());
    }
    while i < pieces.len()
        invariant
            i <= pieces.len(),
            views(pieces@) == split_spec(trimmed(text@), '|'),
            stages@.map_values(|st: Stage| st@) == stages_of_pieces(
                views(pieces@).take(i as int),
            ),
        decreases pieces.len() - i,
    {
        let p = trim_text(pieces[i].as_str());
        let mut w = split_words(p.as_str());
        proof {
            let ps = views(pieces@);
            assert(ps.take(i + 1).drop_last() =~= ps.take(i as int));
            assert(ps.take(i + 1).last() == pieces@[i as int]@);
        }
        if w.len() > 0 {
            let ghost all = views(w@);
            let program = w.remove(0);
            let st = Stage { program, args: w };
            proof {
                assert(st@ =~= all);
            }
            let ghost before = stages@;
            stages.push(st);
            proof {
                assert(stages@.map_values(|st: Stage| st@) =~= before.map_values(
                    |st: Stage| st@,
                ).push(st@));
            }
        }
        i = i + 1;
    }
    proof {
        assert(views(pieces@).take(pieces.len() as int) =~= views(pieces@));
    }
    Statement { stages }
}

/// Parses a line into its statements, in order.
pub fn parse_line(line: &str) -> (r: Vec<Statement>)
    ensures
        r@.map_values(|s: Statement| s@) == line_spec(line@),
{
    let texts = split_on(line, ';');
    let mut out: Vec<Statement> = Vec::new();
    let mut i: usize = 0;
    while i < texts.len()
        invariant
            i <= texts.len(),
            views(texts@) == split_spec(line@, ';'),
            out@.len() == i,
            forall|k: int| 0 <= k < i ==> #[trigger] out@[k]@ == statement_spec(texts@[k]@),
        decreases texts.len() - i,
    {
        let st = parse_statement(texts[i].as_str());
        out.push(st);
        i = i + 1;
    }
    proof {
        assert(out@.map_values(|s: Statement| s@) =~= line_spec(line@)) by {
            assert(views(texts@).len() == texts@.len());
            assert forall|k: int| 0 <= k < texts@.len() implies views(texts@)[k] == texts@[k]@ by {}
        }
    }
    out
}

} // verus!
