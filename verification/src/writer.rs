//! A scoped, indentation-tracking text emitter. Each derived scope may carry
//! one pending termination line (a closing brace, or a closing
//! conditional-compilation directive); closing the scope emits that line
//! exactly once and restores the parent's indent.

use crate::text::lemma_add_assoc;
use vstd::prelude::*;

verus! {

broadcast use lemma_add_assoc;

/// A single newline character.
pub open spec fn nl() -> Seq<char> {
    seq!['\n']
}

/// `n` space characters.
pub open spec fn spec_spaces(n: nat) -> Seq<char> {
    Seq::new(n, |i: int| ' ')
}

/// One emitted line: an indent prefix, the body, and a newline.
pub open spec fn line_at(ind: Seq<char>, body: Seq<char>) -> Seq<char> {
    ind + body + nl()
}

/// One scope of the writer, as the specifications see it: the pending
/// termination line (with whether it is emitted at the parent indent), and
/// the indent to restore when the scope closes.
pub struct ScopeView {
    pub term: Option<(Seq<char>, bool)>,
    pub prev: Seq<char>,
}

/// One open scope: the pending termination line, if any, and the indent
/// prefix of the enclosing scope.
pub struct ScopeRecord {
    termination: Option<(String, bool)>,
    prev_indent: String,
}

impl ScopeRecord {
    pub closed spec fn view(&self) -> ScopeView {
        ScopeView {
            term: match self.termination {
                Option::None => Option::None,
                Option::Some((ref s, b)) => Option::Some((s@, b)),
            },
            prev: self.prev_indent@,
        }
    }
}

/// Appends `n` spaces to a string.
fn push_spaces(s: &mut String, n: usize)
    ensures
        final(s)@ == old(s)@ + spec_spaces(n as nat),
{
    proof {
        reveal_strlit(" ");
    }
    let mut i: usize = 0;
    while i < n
        invariant
            i <= n,
            s@ == old(s)@ + spec_spaces(i as nat),
        decreases n - i,
    {
        s.append(" ");
        i = i + 1;
        proof {
            reveal_strlit(" ");
            assert(spec_spaces((i - 1) as nat) + " "@ =~= spec_spaces(i as nat));
        }
    }
}

/// Helps write out indented code.
pub struct CodeWriter {
    out: String,
    indent_width: usize,
    indent_spaces: String,
    scopes: Vec<ScopeRecord>,
}

impl CodeWriter {
    /// The text emitted so far.
    pub closed spec fn text(&self) -> Seq<char> {
        self.out@
    }

    /// The current indent prefix.
    pub closed spec fn ind(&self) -> Seq<char> {
        self.indent_spaces@
    }

    /// The width of one indent unit, in spaces.
    pub closed spec fn width(&self) -> nat {
        self.indent_width as nat
    }

    /// The open scopes, innermost last.
    pub closed spec fn stack(&self) -> Seq<ScopeView> {
        self.scopes@.map_values(|r: ScopeRecord| r@)
    }

    /// Everything but the emitted text is unchanged.
    pub open spec fn same_shape(&self, other: &CodeWriter) -> bool {
        &&& self.ind() == other.ind()
        &&& self.width() == other.width()
        &&& self.stack() == other.stack()
    }

    /// Creates a writer with no indent and no open scope.
    pub fn new(indent_width: usize) -> (r: CodeWriter)
        ensures
            r.text() == Seq::<char>::empty(),
            r.ind() == Seq::<char>::empty(),
            r.width() == indent_width as nat,
            r.stack() == Seq::<ScopeView>::empty(),
    {
        let r = CodeWriter {
            out: String::new(),
            indent_width,
            indent_spaces: String::new(),
            scopes: Vec::new(),
        };
        proof {
            assert(r.stack() =~= Seq::<ScopeView>::empty());
        }
        r
    }

    /// Writes a line at the current indent.
    pub fn write(&mut self, line: &str)
        ensures
            final(self).text() == old(self).text() + line_at(old(self).ind(), line@),
            final(self).same_shape(old(self)),
    {
        proof {
            reveal_strlit("\n");
            assert("\n"@ =~= nl());
        }
        self.out.append(self.indent_spaces.as_str());
        self.out.append(line);
        self.out.append("\n");
    }

    /// Writes a line with no indent prefix.
    pub fn write_without_indent(&mut self, line: &str)
        ensures
            final(self).text() == old(self).text() + line@ + nl(),
            final(self).same_shape(old(self)),
    {
        proof {
            reveal_strlit("\n");
            assert("\n"@ =~= nl());
        }
        self.out.append(line);
        self.out.append("\n");
    }

    /// Writes a blank line.
    pub fn write_empty(&mut self)
        ensures
            final(self).text() == old(self).text() + nl(),
            final(self).same_shape(old(self)),
    {
        proof {
            reveal_strlit("\n");
            assert("\n"@ =~= nl());
        }
        self.out.append("\n");
    }

    /// Opens a scope that is one indent unit deeper and has no termination
    /// line.
    pub fn indent(&mut self)
        ensures
            final(self).text() == old(self).text(),
            final(self).ind() == old(self).ind() + spec_spaces(old(self).width()),
            final(self).width() == old(self).width(),
            final(self).stack() == old(self).stack().push(
                ScopeView { term: Option::None, prev: old(self).ind() },
            ),
    {
        let prev_indent = self.indent_spaces.clone();
        let rec = ScopeRecord { termination: Option::None, prev_indent };
        self.scopes.push(rec);
        let w = self.indent_width;
        push_spaces(&mut self.indent_spaces, w);
        proof {
            assert(self.stack() =~= old(self).stack().push(
                ScopeView { term: Option::None, prev: old(self).ind() },
            ));
        }
    }

    /// Opens a block scope: emits an opening-brace line at the current
    /// indent, indents one unit deeper, and leaves the matching closing
    /// brace pending, to be emitted at the current indent when the scope is
    /// closed.
    pub fn indent_with_block(&mut self)
        ensures
            final(self).text() == old(self).text() + line_at(old(self).ind(), "{"@),
            final(self).ind() == old(self).ind() + spec_spaces(old(self).width()),
            final(self).width() == old(self).width(),
            final(self).stack() == old(self).stack().push(
                ScopeView { term: Option::Some(("}"@, true)), prev: old(self).ind() },
            ),
    {
        self.write("{");
        let prev_indent = self.indent_spaces.clone();
        let rec = ScopeRecord {
            termination: Option::Some((String::from_str("}"), true)),
            prev_indent,
        };
        self.scopes.push(rec);
        let w = self.indent_width;
        push_spaces(&mut self.indent_spaces, w);
        proof {
            assert(self.stack() =~= old(self).stack().push(
                ScopeView { term: Option::Some(("}"@, true)), prev: old(self).ind() },
            ));
        }
    }

    /// Opens a conditional-compilation scope: emits the opening directive
    /// with no indent, keeps the indent, and leaves the closing directive
    /// pending, to be emitted with no indent when the scope is closed.
    pub fn wrap_ifdef(&mut self, identifier: &str)
        ensures
            final(self).text() == old(self).text() + "#if "@ + identifier@ + nl(),
            final(self).ind() == old(self).ind(),
            final(self).width() == old(self).width(),
            final(self).stack() == old(self).stack().push(
                ScopeView { term: Option::Some(("#endif"@, false)), prev: old(self).ind() },
            ),
    {
        let mut directive = String::from_str("#if ");
        directive.append(identifier);
        self.write_without_indent(directive.as_str());
        let prev_indent = self.indent_spaces.clone();
        let rec = ScopeRecord {
            termination: Option::Some((String::from_str("#endif"), false)),
            prev_indent,
        };
        self.scopes.push(rec);
        proof {
            assert(self.stack() =~= old(self).stack().push(
                ScopeView { term: Option::Some(("#endif"@, false)), prev: old(self).ind() },
            ));
        }
    }

    /// Closes the innermost scope: emits its pending termination line, if
    /// any, exactly once, and restores the enclosing scope's indent. With no
    /// open scope this does nothing.
    pub fn flush(&mut self)
        ensures
            old(self).stack().len() == 0 ==> {
                &&& final(self).text() == old(self).text()
                &&& final(self).same_shape(old(self))
            },
            old(self).stack().len() > 0 ==> {
                let top = old(self).stack().last();
                &&& final(self).text() == old(self).text() + match top.term {
                    Option::None => Seq::<char>::empty(),
                    Option::Some((t, true)) => line_at(top.prev, t),
                    Option::Some((t, false)) => t + nl(),
                }
                &&& final(self).ind() == top.prev
                &&& final(self).width() == old(self).width()
                &&& final(self).stack() == old(self).stack().drop_last()
            },
    {
        proof {
            reveal_strlit("\n");
            assert("\n"@ =~= nl());
        }
        match self.scopes.pop() {
            Option::None => {},
            Option::Some(rec) => {
                match &rec.termination {
                    Option::None => {},
                    Option::Some((text, with_indent)) => {
                        if *with_indent {
                            self.out.append(rec.prev_indent.as_str());
                        }
                        self.out.append(text.as_str());
                        self.out.append("\n");
                    },
                }
                self.indent_spaces = rec.prev_indent;
                proof {
                    assert(self.stack() =~= old(self).stack().drop_last());
                }
            },
        }
    }

    /// Hands out the emitted text; the writer is consumed.
    pub fn into_output(self) -> (r: String)
        ensures
            r@ == self.text(),
    {
        self.out
    }
}

} // verus!
