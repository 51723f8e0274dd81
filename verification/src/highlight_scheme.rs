//! Highlight rules: a compiled regular expression tied to a color and a style,
//! and the per-line transform that wraps every non-overlapping match of the
//! pattern in the rule's escape codes.

use vstd::prelude::*;

use crate::ansi::push_prefix;
use crate::ansi::push_range;
use crate::ansi::push_reset;
use crate::ansi::spec_wrap;
use crate::ansi::Color;
use crate::ansi::Style;

verus! {

/// `regex::bytes::Regex` is opaque to the verifier: values of it are carried
/// through, never inspected.
#[verifier::external_type_specification]
#[verifier::external_body]
pub struct ExRegex(regex::bytes::Regex);

/// `regex::Error` is opaque to the verifier: it is only rendered into a
/// `PatternError` message.
#[verifier::external_type_specification]
#[verifier::external_body]
pub struct ExRegexError(regex::Error);

/// Whether `regex::bytes::Regex::new` accepts the pattern. Compilation
/// succeeds or fails on the pattern text alone, so the outcome has a name.
pub uninterp spec fn pattern_compiles(pat: Seq<char>) -> bool;

/// The leftmost-first match that `regex::bytes::Regex::find` reports for a
/// compiled pattern on a haystack, as `(start, end)` byte offsets. The match
/// is a function of the pattern and the haystack alone.
pub uninterp spec fn spec_find(pat: Seq<char>, hay: Seq<u8>) -> Option<(int, int)>;

/// The mathematical model of one highlight rule.
#[verifier::ext_equal]
pub ghost struct RuleModel {
    pub pat: Seq<char>,
    pub color: Color,
    pub style: Style,
}

/// The error returned when a rule's pattern is not a valid regular
/// expression; it carries the compiler's own description of the fault.
#[derive(Debug)]
pub struct PatternError {
    msg: String,
}

impl View for PatternError {
    type V = Seq<char>;

    closed spec fn view(&self) -> Seq<char> {
        self.msg@
    }
}

impl PatternError {
    /// The description of the rejected pattern.
    pub fn message(&self) -> (r: &String)
        ensures
            r@ == self@,
    {
        &self.msg
    }
}

/// One highlight rule: a pattern compiled once at construction (construction
/// fails on an invalid pattern, so no partially built rule exists), the color
/// and the style its matches are wrapped in.
pub struct HighlightScheme {
    /// The compiled pattern. Private, and always the compilation of `pattern`:
    /// every constructor stores the output of `compile_pattern(&pattern)` here.
    re: regex::bytes::Regex,
    /// The pattern text `re` was compiled from.
    pattern: String,
    /// The color matches are wrapped in.
    color: Color,
    /// The style matches are wrapped in.
    style: Style,
}

impl View for HighlightScheme {
    type V = RuleModel;

    closed spec fn view(&self) -> RuleModel {
        RuleModel { pat: self.pattern@, color: self.color, style: self.style }
    }
}

impl DeepView for HighlightScheme {
    type V = RuleModel;

    open spec fn deep_view(&self) -> RuleModel {
        self.view()
    }
}

/// Relies on `regex::bytes::Regex::new`: it returns `Ok` exactly when the
/// pattern is a valid regular expression (within the default size limit), an
/// outcome that depends on the pattern text alone.
#[verifier::external_body]
fn compile_pattern(pattern: &str) -> (r: Result<regex::bytes::Regex, regex::Error>)
    ensures
        r is Ok <==> pattern_compiles(pattern@),
{
    regex::bytes::Regex::new(pattern)
}

/// Relies on `alloc::string::ToString` through `regex::Error`'s `Display`
/// implementation: renders the compilation failure's detail.
#[verifier::external_body]
fn regex_error_text(e: &regex::Error) -> String {
    e.to_string()
}

/// One rule applied to one line: every non-overlapping match of the pattern,
/// scanned left to right, is wrapped in the rule's escape codes, and all other
/// bytes pass through unchanged. A zero-width match inserts nothing and the
/// scan advances one byte past it, so it cannot loop; the byte it skips over
/// passes through unstyled.
pub open spec fn apply_rule(rule: RuleModel, line: Seq<u8>) -> Seq<u8>
    decreases line.len(),
{
    match spec_find(rule.pat, line) {
        None => line,
        Some(m) => {
            let s = m.0;
            let e = m.1;
            if !(0 <= s <= e <= line.len()) {
                line
            } else if s < e {
                line.subrange(0, s) + spec_wrap(rule.color, rule.style, line.subrange(s, e))
                    + apply_rule(rule, line.skip(e))
            } else if e < line.len() {
                line.subrange(0, e + 1) + apply_rule(rule, line.skip(e + 1))
            } else {
                line
            }
        },
    }
}

impl HighlightScheme {
    /// Builds a rule from a pattern, a color and a style; fails exactly when
    /// the pattern is not a valid regular expression.
    pub fn new(regex_expr: &str, color: Color, style: Style) -> (r: Result<HighlightScheme,
        PatternError>)
        ensures
            r is Ok <==> pattern_compiles(regex_expr@),
            r matches Ok(s) ==> s@ == (RuleModel { pat: regex_expr@, color, style }),
    {
        match compile_pattern(regex_expr) {
            Ok(re) => Ok(HighlightScheme { re, pattern: regex_expr.to_owned(), color, style }),
            Err(e) => Err(PatternError { msg: regex_error_text(&e) }),
        }
    }

    /// Starts a builder from the pattern alone; fails exactly when the pattern
    /// is not a valid regular expression. Color and style can be supplied
    /// later and default at `build`.
    pub fn builder(regex_expr: &str) -> (r: Result<HighlightSchemeBuilder, PatternError>)
        ensures
            r is Ok <==> pattern_compiles(regex_expr@),
            r matches Ok(b) ==> b@ == (BuilderModel {
                pat: regex_expr@,
                color: None,
                style: None,
            }),
    {
        match compile_pattern(regex_expr) {
            Ok(re) => Ok(
                HighlightSchemeBuilder {
                    re,
                    pattern: regex_expr.to_owned(),
                    color: None,
                    style: None,
                },
            ),
            Err(e) => Err(PatternError { msg: regex_error_text(&e) }),
        }
    }

    /// Relies on `regex::bytes::Regex::find` on `&hay[from..]`: the
    /// leftmost-first match is a function of the compiled pattern and the
    /// haystack alone, and its offsets satisfy `start <= end <= haystack len`
    /// (guaranteed by `regex::bytes::Match`). Sound because `re` is always the
    /// compilation of `pattern` (see the field's documentation).
    #[verifier::external_body]
    fn find_from(&self, hay: &Vec<u8>, from: usize) -> (r: Option<(usize, usize)>)
        requires
            from <= hay@.len(),
        ensures
            r is None <==> spec_find(self@.pat, hay@.skip(from as int)) is None,
            r matches Some(m) ==> {
                &&& spec_find(self@.pat, hay@.skip(from as int)) == Some((m.0 as int, m.1 as int))
                &&& m.0 <= m.1
                &&& m.1 <= hay@.len() - from
            },
    {
        self.re.find(&hay[from..]).map(|m| (m.start(), m.end()))
    }

    /// Wraps the whole slice in this rule's color and style, without running
    /// the pattern.
    pub fn format_whole_slice(&self, string_to_format: &Vec<u8>) -> (r: Vec<u8>)
        ensures
            r@ == spec_wrap(self@.color, self@.style, string_to_format@),
    {
        let mut out: Vec<u8> = Vec::new();
        push_prefix(&mut out, self.color, self.style);
        push_range(&mut out, string_to_format, 0, string_to_format.len());
        push_reset(&mut out);
        proof {
            assert(string_to_format@.subrange(0, string_to_format@.len() as int)
                =~= string_to_format@);
            assert(out@ =~= spec_wrap(self@.color, self@.style, string_to_format@));
        }
        out
    }

    /// Applies this rule once to a line (which must not span several lines):
    /// the result is `apply_rule` of the line.
    #[verifier::rlimit(60)]
    pub fn format_line(&self, line_to_format: &Vec<u8>) -> (r: Vec<u8>)
        ensures
            r@ == apply_rule(self@, line_to_format@),
    {
        let line = line_to_format;
        let llen = line.len();
        let mut out: Vec<u8> = Vec::new();
        let mut idx: usize = 0;
        proof {
            assert(line@.skip(0) =~= line@);
            assert(out@ + apply_rule(self@, line@) =~= apply_rule(self@, line@));
        }
        loop
            invariant
                idx <= llen,
                llen == line@.len(),
                line@ == line_to_format@,
                apply_rule(self@, line@) == out@ + apply_rule(self@, line@.skip(idx as int)),
            decreases llen - idx,
        {
            let ghost rest = line@.skip(idx as int);
            let ghost out0 = out@;
            match self.find_from(line, idx) {
                None => {
                    push_range(&mut out, line, idx, llen);
                    proof {
                        assert(apply_rule(self@, rest) == rest);
                        assert(line@.subrange(idx as int, llen as int) =~= rest);
                        assert(out@ =~= apply_rule(self@, line@));
                    }
                    return out;
                },
                Some((s, e)) => {
                    if s < e {
                        push_range(&mut out, line, idx, idx + s);
                        push_prefix(&mut out, self.color, self.style);
                        push_range(&mut out, line, idx + s, idx + e);
                        push_reset(&mut out);
                        proof {
                            assert(self@.color == self.color && self@.style == self.style);
                            let ghost sa = rest.subrange(0, s as int);
                            let ghost sb = rest.subrange(s as int, e as int);
                            assert(sa =~= line@.subrange(idx as int, idx + s as int));
                            assert(sb =~= line@.subrange(idx + s as int, idx + e as int));
                            assert(rest.skip(e as int) =~= line@.skip(idx + e as int));
                            assert(apply_rule(self@, rest) == sa + spec_wrap(
                                self@.color,
                                self@.style,
                                sb,
                            ) + apply_rule(self@, rest.skip(e as int)));
                            assert(out@ =~= out0 + sa + spec_wrap(self@.color, self@.style, sb));
                            assert(out@ + apply_rule(self@, line@.skip(idx + e as int)) =~= out0
                                + apply_rule(self@, rest));
                        }
                        idx = idx + e;
                    } else {
                        if e < llen - idx {
                            push_range(&mut out, line, idx, idx + e + 1);
                            proof {
                                assert(rest.subrange(0, e + 1 as int) =~= line@.subrange(
                                    idx as int,
                                    idx + e + 1 as int,
                                ));
                                assert(rest.skip(e + 1 as int) =~= line@.skip(idx + e + 1 as int));
                                assert(apply_rule(self@, rest) == rest.subrange(0, e + 1 as int)
                                    + apply_rule(self@, rest.skip(e + 1 as int)));
                                assert(out@ + apply_rule(self@, line@.skip(idx + e + 1 as int))
                                    =~= out0 + apply_rule(self@, rest));
                            }
                            idx = idx + e + 1;
                        } else {
                            push_range(&mut out, line, idx, llen);
                            proof {
                                assert(apply_rule(self@, rest) == rest);
                                assert(line@.subrange(idx as int, llen as int) =~= rest);
                                assert(out@ =~= apply_rule(self@, line@));
                            }
                            return out;
                        }
                    }
                },
            }
        }
    }
}

/// The mathematical model of a builder: the pattern and the not yet resolved
/// color and style choices.
#[verifier::ext_equal]
pub ghost struct BuilderModel {
    pub pat: Seq<char>,
    pub color: Option<Color>,
    pub style: Option<Style>,
}

/// The color a finished rule gets when the builder was given none.
pub open spec fn color_or_default(c: Option<Color>) -> Color {
    match c {
        Some(x) => x,
        None => Color::White,
    }
}

/// The style a finished rule gets when the builder was given none.
pub open spec fn style_or_default(s: Option<Style>) -> Style {
    match s {
        Some(x) => x,
        None => Style::Plain,
    }
}

/// Incremental construction of a `HighlightScheme`: the pattern is compiled up
/// front, color and style may be chained on, and `build` resolves defaults.
pub struct HighlightSchemeBuilder {
    /// The compiled pattern; always the compilation of `pattern`, as in
    /// `HighlightScheme`.
    re: regex::bytes::Regex,
    /// The pattern text `re` was compiled from.
    pattern: String,
    /// The chosen color, if any.
    color: Option<Color>,
    /// The chosen style, if any.
    style: Option<Style>,
}

impl View for HighlightSchemeBuilder {
    type V = BuilderModel;

    closed spec fn view(&self) -> BuilderModel {
        BuilderModel { pat: self.pattern@, color: self.color, style: self.style }
    }
}

impl HighlightSchemeBuilder {
    /// Finishes the rule, defaulting an unset color to white and an unset
    /// style to plain.
    pub fn build(self) -> (r: HighlightScheme)
        ensures
            r@ == (RuleModel {
                pat: self@.pat,
                color: color_or_default(self@.color),
                style: style_or_default(self@.style),
            }),
    {
        let HighlightSchemeBuilder { re, pattern, color, style } = self;
        let c = match color {
            Some(c) => c,
            None => Color::White,
        };
        let st = match style {
            Some(s) => s,
            None => Style::Plain,
        };
        HighlightScheme { re, pattern, color: c, style: st }
    }

    /// Chooses the style.
    pub fn with_style(self, s: Style) -> (r: Self)
        ensures
            r@ == (BuilderModel { style: Some(s), ..self@ }),
    {
        let HighlightSchemeBuilder { re, pattern, color, style: _ } = self;
        HighlightSchemeBuilder { re, pattern, color, style: Some(s) }
    }

    /// Chooses the color.
    pub fn with_color(self, s: Color) -> (r: Self)
        ensures
            r@ == (BuilderModel { color: Some(s), ..self@ }),
    {
        let HighlightSchemeBuilder { re, pattern, color: _, style } = self;
        HighlightSchemeBuilder { re, pattern, color: Some(s), style }
    }
}

} // verus!
