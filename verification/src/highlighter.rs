//! The highlighting engine: an ordered rule set applied rule by rule to each
//! line, and the whole-text transform that reads a document line by line,
//! recolors every line and writes it back newline-terminated.
//!
//! The engine owns no stream handles: callers feed it lines (or a whole
//! document) as bytes and write the result wherever they like, so that every
//! byte of the transform is verified here while the I/O stays at the caller.

use vstd::prelude::*;

use crate::ansi::first_of;
use crate::ansi::lemma_first_of_at;
use crate::ansi::push_range;
use crate::highlight_scheme::apply_rule;
use crate::highlight_scheme::HighlightScheme;
use crate::highlight_scheme::RuleModel;

verus! {

/// An ordered rule set applied to a line: each rule runs on the output of the
/// one before it, so later rules see (and may restyle) the escape codes that
/// earlier rules inserted. That interaction is deliberate and documented.
pub open spec fn apply_rules(rules: Seq<RuleModel>, line: Seq<u8>) -> Seq<u8>
    decreases rules.len(),
{
    if rules.len() == 0 {
        line
    } else {
        apply_rules(rules.drop_first(), apply_rule(rules[0], line))
    }
}

/// The lines of a byte stream, split at newline bytes, each line given without
/// its terminator. A final line that lacks a trailing newline is still a line;
/// an empty stream has none.
pub open spec fn spec_lines(s: Seq<u8>) -> Seq<Seq<u8>>
    decreases s.len(),
{
    if s.len() == 0 {
        seq![]
    } else {
        let i = first_of(s, 10u8);
        if 0 <= i < s.len() {
            seq![s.subrange(0, i)] + spec_lines(s.skip(i + 1))
        } else {
            seq![s]
        }
    }
}

/// The rendered output for a sequence of lines: each line transformed by the
/// rule set and followed by exactly one newline.
pub open spec fn render_lines(rules: Seq<RuleModel>, lines: Seq<Seq<u8>>) -> Seq<u8>
    decreases lines.len(),
{
    if lines.len() == 0 {
        seq![]
    } else {
        apply_rules(rules, lines[0]) + seq![10u8] + render_lines(rules, lines.drop_first())
    }
}

/// The highlighting engine: the ordered rule set shared, read-only, by every
/// line of a run.
pub struct Highlighter {
    /// Rules to use for formatting the stream data, applied in order.
    schemes: Vec<HighlightScheme>,
}

impl View for Highlighter {
    type V = Seq<RuleModel>;

    closed spec fn view(&self) -> Seq<RuleModel> {
        self.schemes.deep_view()
    }
}

impl Highlighter {
    /// Builds an engine over an ordered rule set.
    pub fn new(schemes: Vec<HighlightScheme>) -> (r: Highlighter)
        ensures
            r@ == schemes.deep_view(),
    {
        Highlighter { schemes }
    }

    /// Applies the full rule set, in order, to one line.
    pub fn process_line(&self, line: Vec<u8>) -> (r: Vec<u8>)
        ensures
            r@ == apply_rules(self@, line@),
    {
        let ghost line0 = line@;
        let mut cur = line;
        let n = self.schemes.len();
        proof {
            assert(self@.skip(0) =~= self@);
        }
        let mut i: usize = 0;
        while i < n
            invariant
                i <= n,
                n == self.schemes.len(),
                apply_rules(self@.skip(i as int), cur@) == apply_rules(self@, line0),
            decreases n - i,
        {
            let ghost before = cur@;
            cur = self.schemes[i].format_line(&cur);
            proof {
                assert(self.schemes.deep_view()[i as int] == self.schemes[i as int].deep_view());
                assert(self@.skip(i as int)[0] == self@[i as int]);
                assert(self@.skip(i as int).drop_first() =~= self@.skip(i + 1));
                assert(apply_rules(self@.skip(i as int), before) == apply_rules(
                    self@.skip(i + 1),
                    apply_rule(self@[i as int], before),
                ));
            }
            i = i + 1;
        }
        proof {
            assert(self@.skip(n as int) =~= Seq::<RuleModel>::empty());
            assert(apply_rules(self@.skip(n as int), cur@) == cur@);
        }
        cur
    }

    /// Transforms a whole document: reads it line by line (a line ends at a
    /// newline byte, or at the end of the input), recolors each line with the
    /// full rule set, and emits every line, the last included, terminated by
    /// exactly one newline.
    pub fn process_text(&self, input: &Vec<u8>) -> (r: Vec<u8>)
        ensures
            r@ == render_lines(self@, spec_lines(input@)),
    {
        let len = input.len();
        let mut out: Vec<u8> = Vec::new();
        let mut idx: usize = 0;
        proof {
            assert(input@.skip(0) =~= input@);
            assert(out@ + render_lines(self@, spec_lines(input@)) =~= render_lines(
                self@,
                spec_lines(input@),
            ));
        }
        while idx < len
            invariant
                idx <= len,
                len == input@.len(),
                render_lines(self@, spec_lines(input@)) == out@ + render_lines(
                    self@,
                    spec_lines(input@.skip(idx as int)),
                ),
            decreases len - idx,
        {
            let ghost rest = input@.skip(idx as int);
            let ghost out0 = out@;
            let mut j = idx;
            while j < len && input[j] != 10u8
                invariant
                    idx <= j <= len,
                    len == input@.len(),
                    forall|k: int| idx <= k < j ==> input@[k] != 10u8,
                decreases len - j,
            {
                j = j + 1;
            }
            proof {
                assert forall|k: int| 0 <= k < j - idx implies rest[k] != 10u8 by {
                    assert(rest[k] == input@[idx + k]);
                }
                if j < len {
                    assert(rest[j - idx] == input@[j as int]);
                }
                lemma_first_of_at(rest, 10u8, j - idx);
            }
            let mut line: Vec<u8> = Vec::new();
            push_range(&mut line, input, idx, j);
            let mut rendered = self.process_line(line);
            proof {
                assert(input@.subrange(idx as int, j as int) =~= rest.subrange(0, j - idx));
            }
            out.append(&mut rendered);
            out.push(10);
            if j < len {
                proof {
                    assert(spec_lines(rest) == seq![rest.subrange(0, j - idx)] + spec_lines(
                        rest.skip(j - idx + 1),
                    ));
                    assert(spec_lines(rest)[0] == rest.subrange(0, j - idx));
                    assert(spec_lines(rest).drop_first() =~= spec_lines(rest.skip(j - idx + 1)));
                    assert(rest.skip(j - idx + 1) =~= input@.skip(j + 1));
                    assert(out@ =~= out0 + apply_rules(self@, rest.subrange(0, j - idx)) + seq![
                        10u8,
                    ]);
                    assert(out@ + render_lines(self@, spec_lines(input@.skip(j + 1))) =~= out0
                        + render_lines(self@, spec_lines(rest)));
                }
                idx = j + 1;
            } else {
                proof {
                    assert(first_of(rest, 10u8) == rest.len());
                    assert(rest.len() > 0);
                    assert(spec_lines(rest) == seq![rest]);
                    assert(rest.subrange(0, j - idx) =~= rest);
                    assert(spec_lines(rest).drop_first() =~= Seq::<Seq<u8>>::empty());
                    assert(render_lines(self@, spec_lines(rest)) == apply_rules(self@, rest)
                        + seq![10u8] + render_lines(self@, Seq::<Seq<u8>>::empty()));
                    assert(out@ =~= out0 + render_lines(self@, spec_lines(rest)));
                    assert(input@.skip(len as int) =~= Seq::<u8>::empty());
                    assert(out@ + render_lines(self@, spec_lines(input@.skip(len as int))) =~= out@);
                }
                idx = len;
            }
        }
        proof {
            assert(input@.skip(len as int) =~= Seq::<u8>::empty());
        }
        out
    }
}

/// No rules: applying an empty rule set returns every line unchanged.
pub proof fn lemma_empty_rules_identity(line: Seq<u8>)
    ensures
        apply_rules(Seq::<RuleModel>::empty(), line) == line,
{
}

/// A rule whose pattern does not occur in the line leaves the line unchanged.
pub proof fn lemma_no_match_identity(rule: RuleModel, line: Seq<u8>)
    requires
        crate::highlight_scheme::spec_find(rule.pat, line) is None,
    ensures
        apply_rule(rule, line) == line,
{
}

/// Newline normalization: whenever at least one line was read, the rendered
/// output is nonempty and ends with a newline byte, whether or not the input's
/// final line had one.
pub proof fn lemma_render_newline_terminated(rules: Seq<RuleModel>, lines: Seq<Seq<u8>>)
    requires
        lines.len() > 0,
    ensures
        render_lines(rules, lines).len() > 0,
        render_lines(rules, lines)[render_lines(rules, lines).len() - 1] == 10u8,
    decreases lines.len(),
{
    if lines.len() == 1 {
        assert(render_lines(rules, lines.drop_first()) == Seq::<u8>::empty());
    } else {
        lemma_render_newline_terminated(rules, lines.drop_first());
    }
}

/// A nonempty input has at least one line.
pub proof fn lemma_nonempty_input_has_lines(s: Seq<u8>)
    requires
        s.len() > 0,
    ensures
        spec_lines(s).len() >= 1,
{
}

} // verus!
