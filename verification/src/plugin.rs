//! The example plugin: command descriptors, the dispatch over the first
//! invocation token, and the math handler for `add`, `sub`, `mul` and `div`.
//!
//! Arithmetic wraps around on overflow, the documented choice for this
//! plugin: `add`, `sub` and `mul` wrap modulo two to the sixty-fourth, and
//! `div` of the smallest value by minus one yields the smallest value.

use vstd::arithmetic::div_mod::{
    lemma_div_basics, lemma_div_is_strictly_smaller, lemma_div_nonincreasing,
    lemma_div_pos_is_pos,
};
use vstd::prelude::*;

use crate::numtext::{i64_string, i64_to_string, parse_error_text, parse_i64, parse_i64_spec};

verus! {

/// The four arithmetic commands.
#[derive(Clone, Copy, Debug, PartialEq, Eq, Structural)]
pub enum Op {
    Add,
    Sub,
    Mul,
    Div,
}

/// The command token that selects an operator.
pub open spec fn op_token(op: Op) -> Seq<char> {
    match op {
        Op::Add => "add"@,
        Op::Sub => "sub"@,
        Op::Mul => "mul"@,
        Op::Div => "div"@,
    }
}

/// The symbol printed between the operands.
pub open spec fn op_symbol(op: Op) -> Seq<char> {
    match op {
        Op::Add => "+"@,
        Op::Sub => "-"@,
        Op::Mul => "*"@,
        Op::Div => "/"@,
    }
}

/// The command token that selects `op`.
pub fn op_token_str(op: Op) -> (r: &'static str)
    ensures
        r@ == op_token(op),
{
    match op {
        Op::Add => "add",
        Op::Sub => "sub",
        Op::Mul => "mul",
        Op::Div => "div",
    }
}

/// The symbol printed between the operands of `op`.
pub fn op_symbol_str(op: Op) -> (r: &'static str)
    ensures
        r@ == op_symbol(op),
{
    match op {
        Op::Add => "+",
        Op::Sub => "-",
        Op::Mul => "*",
        Op::Div => "/",
    }
}

/// Division truncated toward zero.
pub open spec fn div_trunc(a: int, b: int) -> int
    recommends
        b != 0,
{
    if a == 0 {
        0
    } else if a > 0 && b > 0 {
        a / b
    } else if a < 0 && b < 0 {
        (a * -1) / (b * -1)
    } else if a < 0 {
        ((a * -1) / b) * -1
    } else {
        (a / (b * -1)) * -1
    }
}

/// Truncating division on 64-bit values, wrapping on its one overflow case:
/// the smallest value divided by minus one yields the smallest value.
pub open spec fn div_trunc_i64(a: i64, b: i64) -> i64
    recommends
        b != 0,
{
    if a == i64::MIN && b == -1 {
        i64::MIN
    } else {
        div_trunc(a as int, b as int) as i64
    }
}

/// Divides, truncating toward zero and wrapping on overflow.
fn div_wrapping(a: i64, b: i64) -> (r: i64)
    requires
        b != 0,
    ensures
        r == div_trunc_i64(a, b),
{
    proof {
        if a > 0 && b > 0 {
            lemma_div_nonincreasing(a as int, b as int);
            lemma_div_pos_is_pos(a as int, b as int);
        }
        if a < 0 && b < 0 {
            lemma_div_nonincreasing(-(a as int), -(b as int));
            lemma_div_pos_is_pos(-(a as int), -(b as int));
            if a == i64::MIN {
                if b == -1 {
                    lemma_div_basics(-(a as int));
                } else {
                    lemma_div_is_strictly_smaller(-(a as int), -(b as int));
                }
            }
        }
        if a < 0 && b > 0 {
            lemma_div_nonincreasing(-(a as int), b as int);
            lemma_div_pos_is_pos(-(a as int), b as int);
        }
        if a > 0 && b < 0 {
            lemma_div_nonincreasing(a as int, -(b as int));
            lemma_div_pos_is_pos(a as int, -(b as int));
        }
    }
    match a.checked_div(b) {
        Some(q) => q,
        None => i64::MIN,
    }
}

/// What an arithmetic command computes: the wrapped result, or the one
/// domain error, division by zero.
pub open spec fn apply_op(op: Op, a: i64, b: i64) -> Result<i64, Seq<char>> {
    match op {
        Op::Add => Ok(vstd::wrapping::i64_specs::wrapping_add(a, b)),
        Op::Sub => Ok(vstd::wrapping::i64_specs::wrapping_sub(a, b)),
        Op::Mul => Ok(vstd::wrapping::i64_specs::wrapping_mul(a, b)),
        Op::Div => if b == 0 {
            Err(div_zero_text())
        } else {
            Ok(div_trunc_i64(a, b))
        },
    }
}

/// The domain error for a zero divisor.
pub open spec fn div_zero_text() -> Seq<char> {
    "Division by zero!"@
}

/// The routing error for a first token that selects no command.
pub open spec fn unknown_command_text() -> Seq<char> {
    "Unknown command. Use 'example help' for usage"@
}

/// The usage error for an arithmetic command given other than two operands.
pub open spec fn usage_text(cmd: Seq<char>) -> Seq<char> {
    "Usage: example "@ + cmd + " <num1> <num2>"@
}

/// The output line of a successful arithmetic command.
pub open spec fn math_line(a: i64, op: Op, b: i64, r: i64) -> Seq<char> {
    i64_string(a as int) + " "@ + op_symbol(op) + " "@ + i64_string(b as int) + " = "@
        + i64_string(r as int)
}

/// Builds the output line of a successful arithmetic command.
fn format_math_line(a: i64, op: Op, b: i64, r: i64) -> (out: String)
    ensures
        out@ == math_line(a, op, b, r),
{
    let mut out = i64_to_string(a);
    out.append(" ");
    out.append(op_symbol_str(op));
    out.append(" ");
    let bs = i64_to_string(b);
    out.append(bs.as_str());
    out.append(" = ");
    let rs = i64_to_string(r);
    out.append(rs.as_str());
    proof {
        reveal_strlit(" ");
        reveal_strlit(" = ");
        assert(out@ =~= math_line(a, op, b, r));
    }
    out
}

/// The usage text of the `help` command.
pub open spec fn help_text() -> Seq<char> {
    "example v1.0.0 - A simple example plugin that performs basic arithmetic operations\nCommands:\n  add - Add two numbers: add <num1> <num2>\n  sub - Subtract two numbers: sub <num1> <num2>\n  mul - Multiply two numbers: mul <num1> <num2>\n  div - Divide two numbers: div <num1> <num2>\n  help - Show this help message"@
}

/// The views of a sequence of string tokens.
pub open spec fn token_views(args: Seq<String>) -> Seq<Seq<char>> {
    Seq::new(args.len(), |i: int| args[i]@)
}

/// What an arithmetic command returns: a usage error unless given exactly two
/// operands, a parse error if an operand is not a 64-bit signed integer, and
/// otherwise the operator's outcome formatted as an output line.
pub open spec fn math_spec(op: Op, args: Seq<Seq<char>>) -> Result<Seq<char>, Seq<char>>
    recommends
        args.len() >= 1,
{
    if args.len() != 3 {
        Err(usage_text(args[0]))
    } else {
        match parse_i64_spec(args[1]) {
            Err(e) => Err(parse_error_text(e)),
            Ok(a) => match parse_i64_spec(args[2]) {
                Err(e) => Err(parse_error_text(e)),
                Ok(b) => match apply_op(op, a, b) {
                    Err(m) => Err(m),
                    Ok(r) => Ok(math_line(a, op, b, r)),
                },
            },
        }
    }
}

/// What `execute` returns for an invocation: the first token selects the
/// command; an empty invocation or an unrecognized token is a routing error.
/// A successful result carries the single output line.
pub open spec fn execute_spec(args: Seq<Seq<char>>) -> Result<Seq<char>, Seq<char>> {
    if args.len() == 0 {
        Err(unknown_command_text())
    } else if args[0] == "add"@ {
        math_spec(Op::Add, args)
    } else if args[0] == "sub"@ {
        math_spec(Op::Sub, args)
    } else if args[0] == "mul"@ {
        math_spec(Op::Mul, args)
    } else if args[0] == "div"@ {
        math_spec(Op::Div, args)
    } else if args[0] == "help"@ {
        Ok(help_text())
    } else {
        Err(unknown_command_text())
    }
}

/// The abstract state of a plugin instance: its display name and the
/// configuration string, unset until `configure` is first called.
#[verifier::ext_equal]
pub struct PluginView {
    pub display_name: Seq<char>,
    pub config: Option<Seq<char>>,
}

/// The state after `configure`: the configuration string is stored verbatim,
/// the last write winning; the display name is untouched.
pub open spec fn configure_post(v: PluginView, cfg: Seq<char>) -> PluginView {
    PluginView { display_name: v.display_name, config: Some(cfg) }
}

/// The state after `init`: the display name is set; the configuration is
/// untouched.
pub open spec fn init_post(v: PluginView) -> PluginView {
    PluginView { display_name: "Example Plugin"@, config: v.config }
}

/// An arithmetic example plugin: a display name and an optional
/// configuration string.
pub struct ExamplePlugin {
    display_name: String,
    config: Option<String>,
}

impl View for ExamplePlugin {
    type V = PluginView;

    closed spec fn view(&self) -> PluginView {
        PluginView {
            display_name: self.display_name@,
            config: match self.config {
                Some(c) => Some(c@),
                None => None,
            },
        }
    }
}

impl Default for ExamplePlugin {
    /// A fresh instance: empty display name, no configuration yet.
    fn default() -> (r: Self)
        ensures
            r@.display_name == Seq::<char>::empty(),
            r@.config is None,
    {
        ExamplePlugin { display_name: String::new(), config: None }
    }
}

/// Compares a token with a literal.
fn token_is(tok: &String, lit: &str) -> (r: bool)
    ensures
        r == (tok@ == lit@),
{
    let l = String::from_str(lit);
    *tok == l
}

impl ExamplePlugin {
    /// The plugin's identifier, used by the host for routing and named in
    /// error messages.
    pub fn name(&self) -> (r: &'static str)
        ensures
            r@ == "example"@,
    {
        "example"
    }

    /// The plugin's semantic version.
    pub fn version(&self) -> (r: &'static str)
        ensures
            r@ == "1.0.0"@,
    {
        "1.0.0"
    }

    /// A human-readable summary of the plugin.
    pub fn description(&self) -> (r: &'static str)
        ensures
            r@ == "A simple example plugin that performs basic arithmetic operations"@,
    {
        "A simple example plugin that performs basic arithmetic operations"
    }

    /// The supported commands, in order: each command name with its usage
    /// string.
    pub fn commands(&self) -> (r: Vec<(&'static str, &'static str)>)
        ensures
            r@.len() == 5,
            r@[0].0@ == "add"@ && r@[0].1@ == "Add two numbers: add <num1> <num2>"@,
            r@[1].0@ == "sub"@ && r@[1].1@ == "Subtract two numbers: sub <num1> <num2>"@,
            r@[2].0@ == "mul"@ && r@[2].1@ == "Multiply two numbers: mul <num1> <num2>"@,
            r@[3].0@ == "div"@ && r@[3].1@ == "Divide two numbers: div <num1> <num2>"@,
            r@[4].0@ == "help"@ && r@[4].1@ == "Show this help message"@,
    {
        let mut v: Vec<(&'static str, &'static str)> = Vec::new();
        v.push(("add", "Add two numbers: add <num1> <num2>"));
        v.push(("sub", "Subtract two numbers: sub <num1> <num2>"));
        v.push(("mul", "Multiply two numbers: mul <num1> <num2>"));
        v.push(("div", "Divide two numbers: div <num1> <num2>"));
        v.push(("help", "Show this help message"));
        v
    }

    /// Sets the display name. Always succeeds; the host prints the startup
    /// message.
    pub fn init(&mut self) -> (r: Result<(), String>)
        ensures
            r is Ok,
            final(self)@ == init_post(old(self)@),
    {
        self.display_name = String::from_str("Example Plugin");
        Ok(())
    }

    /// Stores the configuration string verbatim. Always succeeds; the last
    /// write wins.
    pub fn configure(&mut self, config: &str) -> (r: Result<(), String>)
        ensures
            r is Ok,
            final(self)@ == configure_post(old(self)@, config@),
    {
        self.config = Some(String::from_str(config));
        Ok(())
    }

    /// A pre-destruction hook. Touches no state and always succeeds; the
    /// host prints the shutdown message.
    pub fn cleanup(&mut self) -> (r: Result<(), String>)
        ensures
            r is Ok,
            final(self)@ == old(self)@,
    {
        Ok(())
    }

    /// The usage text that the `help` command outputs.
    pub fn help(&self) -> (r: String)
        ensures
            r@ == help_text(),
    {
        String::from_str(
            "example v1.0.0 - A simple example plugin that performs basic arithmetic operations\nCommands:\n  add - Add two numbers: add <num1> <num2>\n  sub - Subtract two numbers: sub <num1> <num2>\n  mul - Multiply two numbers: mul <num1> <num2>\n  div - Divide two numbers: div <num1> <num2>\n  help - Show this help message",
        )
    }

    /// The stored configuration string, if `configure` has been called.
    pub fn current_config(&self) -> (r: Option<&String>)
        ensures
            match r {
                Some(c) => self@.config == Some(c@),
                None => self@.config is None,
            },
    {
        self.config.as_ref()
    }

    /// The display name, empty until `init` sets it.
    pub fn current_display_name(&self) -> (r: &String)
        ensures
            r@ == self@.display_name,
    {
        &self.display_name
    }

    /// Dispatches an invocation on its first token and returns the output
    /// line or the error message, exactly as `execute_spec` states.
    pub fn execute(&self, args: &[String]) -> (r: Result<String, String>)
        ensures
            (match (r, execute_spec(token_views(args@))) {
                (Ok(out), Ok(line)) => out@ == line,
                (Err(err), Err(msg)) => err@ == msg,
                _ => false,
            }),
    {
        if args.len() == 0 {
            return Err(unknown_command_string());
        }
        let cmd = vstd::slice::slice_index_get(args, 0);
        if token_is(cmd, "add") {
            self.handle_math(args, Op::Add)
        } else if token_is(cmd, "sub") {
            self.handle_math(args, Op::Sub)
        } else if token_is(cmd, "mul") {
            self.handle_math(args, Op::Mul)
        } else if token_is(cmd, "div") {
            self.handle_math(args, Op::Div)
        } else if token_is(cmd, "help") {
            Ok(self.help())
        } else {
            Err(unknown_command_string())
        }
    }

    /// Checks the operand count, parses both operands, applies the operator
    /// and formats the output line, exactly as `math_spec` states.
    fn handle_math(&self, args: &[String], op: Op) -> (r: Result<String, String>)
        requires
            args@.len() >= 1,
            args@[0]@ == op_token(op),
        ensures
            (match (r, math_spec(op, token_views(args@))) {
                (Ok(out), Ok(line)) => out@ == line,
                (Err(err), Err(msg)) => err@ == msg,
                _ => false,
            }),
    {
        if args.len() != 3 {
            let mut msg = String::from_str("Usage: example ");
            msg.append(op_token_str(op));
            msg.append(" <num1> <num2>");
            proof {
                assert(msg@ =~= usage_text(op_token(op)));
            }
            return Err(msg);
        }
        let a = match parse_i64(vstd::slice::slice_index_get(args, 1).as_str()) {
            Ok(v) => v,
            Err(e) => {
                return Err(e.message());
            },
        };
        let b = match parse_i64(vstd::slice::slice_index_get(args, 2).as_str()) {
            Ok(v) => v,
            Err(e) => {
                return Err(e.message());
            },
        };
        match op {
            Op::Add => Ok(format_math_line(a, op, b, a.wrapping_add(b))),
            Op::Sub => Ok(format_math_line(a, op, b, a.wrapping_sub(b))),
            Op::Mul => Ok(format_math_line(a, op, b, a.wrapping_mul(b))),
            Op::Div => {
                if b == 0 {
                    Err(String::from_str("Division by zero!"))
                } else {
                    Ok(format_math_line(a, op, b, div_wrapping(a, b)))
                }
            },
        }
    }
}

/// The routing error returned for an unrecognized or missing first token.
fn unknown_command_string() -> (r: String)
    ensures
        r@ == unknown_command_text(),
{
    String::from_str("Unknown command. Use 'example help' for usage")
}

} // verus!
