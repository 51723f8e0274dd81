//! The rule-specification surface: one optional pattern per terminal color,
//! turned into the ordered rule set. The argument-vector parsing that fills a
//! `Cli` lives with the binary; building and validating the rules is here.

use vstd::prelude::*;

use crate::ansi::Color;
use crate::ansi::Style;
use crate::highlight_scheme::pattern_compiles;
use crate::highlight_scheme::HighlightScheme;
use crate::highlight_scheme::PatternError;
use crate::highlight_scheme::RuleModel;

verus! {

/// One optional pattern per color of the sixteen-color palette. Each present
/// pattern becomes one rule, in the fixed order of the fields below.
pub struct Cli {
    pub black: Option<String>,
    pub bright_black: Option<String>,
    pub red: Option<String>,
    pub bright_red: Option<String>,
    pub green: Option<String>,
    pub bright_green: Option<String>,
    pub yellow: Option<String>,
    pub bright_yellow: Option<String>,
    pub blue: Option<String>,
    pub bright_blue: Option<String>,
    pub magenta: Option<String>,
    pub bright_magenta: Option<String>,
    pub cyan: Option<String>,
    pub bright_cyan: Option<String>,
    pub white: Option<String>,
    pub bright_white: Option<String>,
}

/// The pattern text of an optional specification.
pub open spec fn opt_pat(o: Option<String>) -> Option<Seq<char>> {
    match o {
        Some(s) => Some(s@),
        None => None,
    }
}

/// An absent specification is fine; a present one must compile.
pub open spec fn entry_compiles(o: Option<Seq<char>>) -> bool {
    match o {
        Some(p) => pattern_compiles(p),
        None => true,
    }
}

/// The rules one specification contributes: none when absent, else one rule
/// with the given color and the plain style.
pub open spec fn entry_rules(o: Option<Seq<char>>, color: Color) -> Seq<RuleModel> {
    match o {
        Some(p) => seq![RuleModel { pat: p, color, style: Style::Plain }],
        None => seq![],
    }
}

/// Every present pattern of the specification compiles.
pub open spec fn spec_cli_compiles(cli: Cli) -> bool {
    &&& entry_compiles(opt_pat(cli.black))
    &&& entry_compiles(opt_pat(cli.bright_black))
    &&& entry_compiles(opt_pat(cli.red))
    &&& entry_compiles(opt_pat(cli.bright_red))
    &&& entry_compiles(opt_pat(cli.green))
    &&& entry_compiles(opt_pat(cli.bright_green))
    &&& entry_compiles(opt_pat(cli.yellow))
    &&& entry_compiles(opt_pat(cli.bright_yellow))
    &&& entry_compiles(opt_pat(cli.blue))
    &&& entry_compiles(opt_pat(cli.bright_blue))
    &&& entry_compiles(opt_pat(cli.magenta))
    &&& entry_compiles(opt_pat(cli.bright_magenta))
    &&& entry_compiles(opt_pat(cli.cyan))
    &&& entry_compiles(opt_pat(cli.bright_cyan))
    &&& entry_compiles(opt_pat(cli.white))
    &&& entry_compiles(opt_pat(cli.bright_white))
}

/// The full rule set a specification yields, in the fixed, documented color
/// order: black, bright black, red, bright red, and so on through bright
/// white.
pub open spec fn spec_cli_rules(cli: Cli) -> Seq<RuleModel> {
    entry_rules(opt_pat(cli.black), Color::Black) + entry_rules(
        opt_pat(cli.bright_black),
        Color::BrightBlack,
    ) + entry_rules(opt_pat(cli.red), Color::Red) + entry_rules(
        opt_pat(cli.bright_red),
        Color::BrightRed,
    ) + entry_rules(opt_pat(cli.green), Color::Green) + entry_rules(
        opt_pat(cli.bright_green),
        Color::BrightGreen,
    ) + entry_rules(opt_pat(cli.yellow), Color::Yellow) + entry_rules(
        opt_pat(cli.bright_yellow),
        Color::BrightYellow,
    ) + entry_rules(opt_pat(cli.blue), Color::Blue) + entry_rules(
        opt_pat(cli.bright_blue),
        Color::BrightBlue,
    ) + entry_rules(opt_pat(cli.magenta), Color::Magenta) + entry_rules(
        opt_pat(cli.bright_magenta),
        Color::BrightMagenta,
    ) + entry_rules(opt_pat(cli.cyan), Color::Cyan) + entry_rules(
        opt_pat(cli.bright_cyan),
        Color::BrightCyan,
    ) + entry_rules(opt_pat(cli.white), Color::White) + entry_rules(
        opt_pat(cli.bright_white),
        Color::BrightWhite,
    )
}

impl Cli {
    /// Builds the ordered rule set from the per-color patterns, in the fixed
    /// color order; stops at, and reports, the first invalid pattern, so the
    /// whole startup fails before any stream processing when a pattern is bad.
    pub fn create_schemes_from_cli(&self) -> (r: Result<Vec<HighlightScheme>, PatternError>)
        ensures
            r is Ok <==> spec_cli_compiles(*self),
            r matches Ok(v) ==> v.deep_view() == spec_cli_rules(*self),
    {
        let mut schemes: Vec<HighlightScheme> = Vec::new();
        proof {
            assert(schemes.deep_view() =~= Seq::<RuleModel>::empty());
        }
        match Self::push_scheme_if_spec_exists(&mut schemes, &self.black, Color::Black) {
            Ok(()) => {},
            Err(e) => {
                return Err(e);
            },
        }
        match Self::push_scheme_if_spec_exists(&mut schemes, &self.bright_black, Color::BrightBlack)
        {
            Ok(()) => {},
            Err(e) => {
                return Err(e);
            },
        }
        match Self::push_scheme_if_spec_exists(&mut schemes, &self.red, Color::Red) {
            Ok(()) => {},
            Err(e) => {
                return Err(e);
            },
        }
        match Self::push_scheme_if_spec_exists(&mut schemes, &self.bright_red, Color::BrightRed) {
            Ok(()) => {},
            Err(e) => {
                return Err(e);
            },
        }
        match Self::push_scheme_if_spec_exists(&mut schemes, &self.green, Color::Green) {
            Ok(()) => {},
            Err(e) => {
                return Err(e);
            },
        }
        match Self::push_scheme_if_spec_exists(&mut schemes, &self.bright_green, Color::BrightGreen)
        {
            Ok(()) => {},
            Err(e) => {
                return Err(e);
            },
        }
        match Self::push_scheme_if_spec_exists(&mut schemes, &self.yellow, Color::Yellow) {
            Ok(()) => {},
            Err(e) => {
                return Err(e);
            },
        }
        match Self::push_scheme_if_spec_exists(
            &mut schemes,
            &self.bright_yellow,
            Color::BrightYellow,
        ) {
            Ok(()) => {},
            Err(e) => {
                return Err(e);
            },
        }
        match Self::push_scheme_if_spec_exists(&mut schemes, &self.blue, Color::Blue) {
            Ok(()) => {},
            Err(e) => {
                return Err(e);
            },
        }
        match Self::push_scheme_if_spec_exists(&mut schemes, &self.bright_blue, Color::BrightBlue) {
            Ok(()) => {},
            Err(e) => {
                return Err(e);
            },
        }
        match Self::push_scheme_if_spec_exists(&mut schemes, &self.magenta, Color::Magenta) {
            Ok(()) => {},
            Err(e) => {
                return Err(e);
            },
        }
        match Self::push_scheme_if_spec_exists(
            &mut schemes,
            &self.bright_magenta,
            Color::BrightMagenta,
        ) {
            Ok(()) => {},
            Err(e) => {
                return Err(e);
            },
        }
        match Self::push_scheme_if_spec_exists(&mut schemes, &self.cyan, Color::Cyan) {
            Ok(()) => {},
            Err(e) => {
                return Err(e);
            },
        }
        match Self::push_scheme_if_spec_exists(&mut schemes, &self.bright_cyan, Color::BrightCyan) {
            Ok(()) => {},
            Err(e) => {
                return Err(e);
            },
        }
        match Self::push_scheme_if_spec_exists(&mut schemes, &self.white, Color::White) {
            Ok(()) => {},
            Err(e) => {
                return Err(e);
            },
        }
        match Self::push_scheme_if_spec_exists(&mut schemes, &self.bright_white, Color::BrightWhite)
        {
            Ok(()) => {},
            Err(e) => {
                return Err(e);
            },
        }
        proof {
            assert(schemes.deep_view() =~= spec_cli_rules(*self));
        }
        Ok(schemes)
    }

    /// Appends one rule when the specification is present; an absent one
    /// appends nothing and an invalid pattern is the reported failure.
    fn push_scheme_if_spec_exists(
        schemes: &mut Vec<HighlightScheme>,
        re_str: &Option<String>,
        color: Color,
    ) -> (r: Result<(), PatternError>)
        ensures
            r is Ok <==> entry_compiles(opt_pat(*re_str)),
            r is Ok ==> final(schemes).deep_view() == old(schemes).deep_view() + entry_rules(
                opt_pat(*re_str),
                color,
            ),
            r is Err ==> *final(schemes) == *old(schemes),
    {
        match re_str {
            Some(p) => {
                match HighlightScheme::new(p.as_str(), color, Style::Plain) {
                    Ok(s) => {
                        schemes.push(s);
                        proof {
                            assert(schemes.deep_view() =~= old(schemes).deep_view() + entry_rules(
                                opt_pat(*re_str),
                                color,
                            ));
                        }
                        Ok(())
                    },
                    Err(e) => Err(e),
                }
            },
            None => {
                proof {
                    assert(schemes.deep_view() =~= old(schemes).deep_view() + entry_rules(
                        opt_pat(*re_str),
                        color,
                    ));
                }
                Ok(())
            },
        }
    }
}

} // verus!
