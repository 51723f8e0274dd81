//! Stripping styling back out. `strip_styling` removes every escape sequence
//! (an escape byte through the next `m`), and the round-trip law states that
//! stripping a single rule's output reproduces the input line exactly.

use vstd::prelude::*;

use crate::ansi::esc_free;
use crate::ansi::first_of;
use crate::ansi::lemma_first_of_at;
use crate::ansi::lemma_prefix_shape;
use crate::ansi::spec_prefix;
use crate::ansi::spec_reset;
use crate::highlight_scheme::apply_rule;
use crate::highlight_scheme::spec_find;
use crate::highlight_scheme::RuleModel;

verus! {

/// Removes every styling sequence: from each escape byte through the next `m`
/// (inclusive); every other byte is kept. An escape byte with no closing `m`
/// swallows the rest.
pub open spec fn strip_styling(s: Seq<u8>) -> Seq<u8>
    decreases s.len(),
{
    if s.len() == 0 {
        s
    } else if s[0] == 27u8 {
        let i = first_of(s, 109u8);
        if 0 <= i < s.len() {
            strip_styling(s.skip(i + 1))
        } else {
            seq![]
        }
    } else {
        seq![s[0]] + strip_styling(s.drop_first())
    }
}

/// Stripping leaves an escape-free sequence unchanged.
pub proof fn lemma_strip_esc_free(s: Seq<u8>)
    requires
        esc_free(s),
    ensures
        strip_styling(s) == s,
    decreases s.len(),
{
    if s.len() > 0 {
        assert(s[0] != 27u8);
        lemma_strip_esc_free(s.drop_first());
        assert(seq![s[0]] + s.drop_first() =~= s);
    }
}

/// Stripping walks over an escape-free head unchanged.
pub proof fn lemma_strip_concat_esc_free(a: Seq<u8>, b: Seq<u8>)
    requires
        esc_free(a),
    ensures
        strip_styling(a + b) == a + strip_styling(b),
    decreases a.len(),
{
    if a.len() == 0 {
        assert(a + b =~= b);
        assert(a + strip_styling(b) =~= strip_styling(b));
    } else {
        assert((a + b)[0] == a[0]);
        assert(a[0] != 27u8);
        assert((a + b).drop_first() =~= a.drop_first() + b);
        lemma_strip_concat_esc_free(a.drop_first(), b);
        assert(seq![a[0]] + (a.drop_first() + strip_styling(b)) =~= a + strip_styling(b));
    }
}

/// Stripping removes a whole well-formed escape block (it starts with the
/// escape byte and holds exactly one `m`, at its end) from the front.
pub proof fn lemma_strip_escape_block(p: Seq<u8>, rest: Seq<u8>)
    requires
        p.len() >= 1,
        p[0] == 27u8,
        p[p.len() - 1] == 109u8,
        forall|k: int| 0 <= k < p.len() - 1 ==> p[k] != 109u8,
    ensures
        strip_styling(p + rest) == strip_styling(rest),
{
    let s = p + rest;
    assert(s[0] == 27u8);
    assert forall|k: int| 0 <= k < p.len() - 1 implies s[k] != 109u8 by {
        assert(s[k] == p[k]);
    }
    assert(s[p.len() - 1] == p[p.len() - 1]);
    lemma_first_of_at(s, 109u8, p.len() - 1);
    assert(s.skip(p.len() as int) =~= rest);
}

/// Round trip: stripping the styling that a single rule inserted reproduces
/// the original line exactly, provided the line itself held no escape byte.
pub proof fn lemma_strip_round_trip(rule: RuleModel, line: Seq<u8>)
    requires
        esc_free(line),
    ensures
        strip_styling(apply_rule(rule, line)) == line,
    decreases line.len(),
{
    lemma_prefix_shape(rule.color, rule.style);
    match spec_find(rule.pat, line) {
        None => {
            lemma_strip_esc_free(line);
        },
        Some(m) => {
            let s = m.0;
            let e = m.1;
            if !(0 <= s <= e <= line.len()) {
                lemma_strip_esc_free(line);
            } else if s < e {
                let a = line.subrange(0, s);
                let b = line.subrange(s, e);
                let t = line.skip(e);
                let pre = spec_prefix(rule.color, rule.style);
                let tail = apply_rule(rule, t);
                assert(esc_free(a) && esc_free(b) && esc_free(t));
                lemma_strip_round_trip(rule, t);
                assert(apply_rule(rule, line) =~= a + (pre + (b + (spec_reset() + tail))));
                lemma_strip_escape_block(spec_reset(), tail);
                lemma_strip_concat_esc_free(b, spec_reset() + tail);
                lemma_strip_escape_block(pre, b + (spec_reset() + tail));
                lemma_strip_concat_esc_free(a, pre + (b + (spec_reset() + tail)));
                assert(strip_styling(apply_rule(rule, line)) == a + (b + strip_styling(
                    spec_reset() + tail,
                )));
                assert(a + (b + t) =~= line);
            } else if e < line.len() {
                let a = line.subrange(0, e + 1);
                let t = line.skip(e + 1);
                assert(esc_free(a) && esc_free(t));
                lemma_strip_round_trip(rule, t);
                lemma_strip_concat_esc_free(a, apply_rule(rule, t));
                assert(a + t =~= line);
            } else {
                lemma_strip_esc_free(line);
            }
        },
    }
}

} // verus!
