//! The calculator as a program: what its arguments ask for.

use crate::calculator::expression::{expression_parsed, reported, CalcView, Calculator, Report};
use crate::util::common::{next_value, value_missing};
use crate::util::text::{chars_of, remove_char, str_eq, without};
use vstd::prelude::*;
use vstd::string::StringExecFns;

verus! {

/// The calculator with its arguments.
#[derive(Debug)]
pub struct CalculatorApp {
    pub args: Vec<String>,
    pub detail: bool,
}

/// What the arguments ask for.
#[derive(Debug, PartialEq, Eq)]
pub enum Request {
    /// An argument after an expression that begins with a dash.
    UnknownOption(String),
    /// More than one expression.
    MultipleExpressions,
    /// The option `-f` without a file.
    MissingValue(String),
    /// Neither an expression nor a file, or both.
    Usage,
    /// To evaluate the expression.
    Expression(String),
    /// To evaluate the expressions of the file.
    File(String),
}

/// The content of a [`Request`].
pub enum RequestView {
    UnknownOption(Seq<char>),
    MultipleExpressions,
    MissingValue(Seq<char>),
    Usage,
    Expression(Seq<char>),
    File(Seq<char>),
}

impl View for Request {
    type V = RequestView;

    open spec fn view(&self) -> RequestView {
        match self {
            Request::UnknownOption(s) => RequestView::UnknownOption(s@),
            Request::MultipleExpressions => RequestView::MultipleExpressions,
            Request::MissingValue(s) => RequestView::MissingValue(s@),
            Request::Usage => RequestView::Usage,
            Request::Expression(s) => RequestView::Expression(s@),
            Request::File(s) => RequestView::File(s@),
        }
    }
}

/// What has been read of the arguments.
pub struct ArgScan {
    pub detail: bool,
    pub file: Seq<char>,
    pub exp: Seq<char>,
}

/// What the arguments from `pos` on ask for, given what was read before:
/// `-d` asks for details, `-f` names a file, and anything else is the
/// expression. In the end there must be an expression or a file, not both.
pub open spec fn requested(args: Seq<Seq<char>>, pos: int, st: ArgScan) -> (RequestView, bool)
    decreases args.len() - pos,
{
    if pos < 0 || pos >= args.len() {
        if (st.file.len() == 0) == (st.exp.len() == 0) {
            (RequestView::Usage, st.detail)
        } else if st.exp.len() != 0 {
            (RequestView::Expression(st.exp), st.detail)
        } else {
            (RequestView::File(st.file), st.detail)
        }
    } else if args[pos] == "-d"@ {
        requested(args, pos + 1, ArgScan { detail: true, ..st })
    } else if args[pos] == "-f"@ {
        if pos + 1 < args.len() {
            requested(args, pos + 2, ArgScan { file: args[pos + 1], ..st })
        } else {
            (RequestView::MissingValue(value_missing("-f"@)), st.detail)
        }
    } else if st.exp.len() > 0 && st.exp[0] == '-' {
        (RequestView::UnknownOption(args[pos]), st.detail)
    } else if st.exp.len() != 0 {
        (RequestView::MultipleExpressions, st.detail)
    } else {
        requested(args, pos + 1, ArgScan { exp: args[pos], ..st })
    }
}

/// The texts of the arguments.
pub open spec fn args_view(args: Seq<String>) -> Seq<Seq<char>> {
    Seq::new(args.len(), |i: int| args[i]@)
}

/// How to call the calculator.
pub open spec fn usage_text() -> Seq<char> {
    "invalid input\nUsage\n    $ cargo run C EXPRESSION [-d]\n    $ cargo run C -f FILE [-d]\nOptions\n    -d: print debug info\n    -f: read expresisons from file instead of a commandline expression\n"@
}

/// How to call the calculator.
pub fn print_usage() -> (r: String)
    ensures
        r@ == usage_text(),
{
    String::from_str(
        "invalid input\nUsage\n    $ cargo run C EXPRESSION [-d]\n    $ cargo run C -f FILE [-d]\nOptions\n    -d: print debug info\n    -f: read expresisons from file instead of a commandline expression\n",
    )
}

/// Whether a line of a file of expressions is passed over: it holds
/// nothing but blanks, or its first character that is no blank is a `#`.
pub open spec fn skipped(line: Seq<char>) -> bool {
    without(line, ' ').len() == 0 || without(line, ' ')[0] == '#'
}

/// Whether a line of a file of expressions is passed over.
pub fn is_skipped(line: &str) -> (r: bool)
    ensures
        r == skipped(line@),
{
    let cs = remove_char(&chars_of(line), ' ');
    cs.len() == 0 || cs[0] == '#'
}

impl CalculatorApp {
    /// The calculator with the given arguments.
    pub fn new(args: Vec<String>) -> (r: CalculatorApp)
        ensures
            r.args@ == args@,
            !r.detail,
    {
        CalculatorApp { args, detail: false }
    }

    /// Reads the arguments and tells what they ask for.
    pub fn run(&mut self) -> (r: Request)
        ensures
            final(self).args@ == old(self).args@,
            (r@, final(self).detail) == requested(
                args_view(old(self).args@),
                0,
                ArgScan { detail: old(self).detail, file: Seq::empty(), exp: Seq::empty() },
            ),
    {
        let mut file_path = String::new();
        let mut exp = String::new();
        let mut pos: usize = 0;
        let ghost av = args_view(self.args@);
        let ghost start = ArgScan { detail: self.detail, file: Seq::empty(), exp: Seq::empty() };
        while pos < self.args.len()
            invariant
                pos <= self.args.len(),
                self.args@ == old(self).args@,
                av == args_view(self.args@),
                av == args_view(old(self).args@),
                start == (ArgScan {
                    detail: old(self).detail,
                    file: Seq::empty(),
                    exp: Seq::empty(),
                }),
                requested(av, 0, start) == requested(
                    av,
                    pos as int,
                    ArgScan { detail: self.detail, file: file_path@, exp: exp@ },
                ),
            decreases self.args.len() - pos,
        {
            let s = self.args[pos].as_str();
            assert(av[pos as int] == s@);
            if str_eq(s, "-d") {
                self.detail = true;
                pos += 1;
            } else if str_eq(s, "-f") {
                pos += 1;
                match next_value(&self.args, &mut pos, "-f") {
                    Ok(v) => {
                        file_path = v;
                    },
                    Err(e) => {
                        return Request::MissingValue(e);
                    },
                }
            } else {
                let first_dash = {
                    let cs = chars_of(exp.as_str());
                    cs.len() > 0 && cs[0] == '-'
                };
                if first_dash {
                    return Request::UnknownOption(self.args[pos].clone());
                }
                if !exp.as_str().is_empty() {
                    return Request::MultipleExpressions;
                }
                exp = self.args[pos].clone();
                pos += 1;
            }
        }
        let no_file = file_path.as_str().is_empty();
        let no_exp = exp.as_str().is_empty();
        if no_file == no_exp {
            Request::Usage
        } else if !no_exp {
            Request::Expression(exp)
        } else {
            Request::File(file_path)
        }
    }

    /// Reads and evaluates the expression. Gives what was read of it and
    /// the result of the evaluation, `None` for a hand that is no win. The
    /// error is that of the reading.
    pub fn process_expression(&self, exp: &str) -> (r: Result<(Calculator, Option<Report>), String>)
        requires
            exp@.len() < usize::MAX,
        ensures
            match r {
                Ok((c, rep)) => expression_parsed(CalcView::initial(self.detail), exp@) == Ok::<
                    CalcView,
                    Seq<char>,
                >(c@) && reported(c, rep),
                Err(e) => expression_parsed(CalcView::initial(self.detail), exp@) == Err::<
                    CalcView,
                    Seq<char>,
                >(e@),
            },
    {
        let mut calculator = Calculator::new(self.detail);
        proof {
            assert forall|t: int, n: int|
                0 <= t < crate::model::define::TYPE && 0 <= n < crate::model::define::TNUM implies (
            #[trigger] calculator.hand[t][n]) + exp@.len() <= usize::MAX by {
                assert(calculator@.hand[t][n] == 0);
            }
        }
        match calculator.parse(exp) {
            Ok(_) => {},
            Err(e) => {
                return Err(e);
            },
        }
        let report = calculator.run();
        Ok((calculator, report))
    }
}

} // verus!
