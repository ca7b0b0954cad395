//! The laws of the plugin, stated over the same spec functions that the
//! executable functions' contracts use and proved once and for all.

use vstd::arithmetic::div_mod::{
    lemma_div_basics, lemma_div_is_strictly_smaller, lemma_div_nonincreasing,
    lemma_div_pos_is_pos, lemma_mod_add_multiples_vanish, lemma_small_mod,
};
use vstd::prelude::*;

use crate::numtext::{parse_error_text, parse_i64_spec, ParseIntError};
use crate::plugin::{
    configure_post, div_trunc, div_trunc_i64, div_zero_text, execute_spec, help_text, math_line,
    math_spec, op_token, unknown_command_text, usage_text, Op, PluginView,
};

verus! {

/// `needle` occurs somewhere in `hay`.
pub open spec fn contains_subseq(hay: Seq<char>, needle: Seq<char>) -> bool {
    exists|i: int|
        0 <= i && i + needle.len() <= hay.len() && #[trigger] hay.subrange(i, i + needle.len())
            == needle
}

/// An invocation whose first token selects the arithmetic command `op` is
/// handled by the math handler.
proof fn lemma_dispatch_math(args: Seq<Seq<char>>, op: Op)
    requires
        args.len() >= 1,
        args[0] == op_token(op),
    ensures
        execute_spec(args) == math_spec(op, args),
{
    reveal_strlit("add");
    reveal_strlit("sub");
    reveal_strlit("mul");
    reveal_strlit("div");
    assert("add"@[0] == 'a' && "sub"@[0] == 's' && "mul"@[0] == 'm' && "div"@[0] == 'd');
}

/// For all valid operands whose sum fits, `add` outputs the sum.
pub proof fn lemma_add_outputs_sum(s1: Seq<char>, s2: Seq<char>, a: i64, b: i64)
    requires
        parse_i64_spec(s1) == Ok::<i64, ParseIntError>(a),
        parse_i64_spec(s2) == Ok::<i64, ParseIntError>(b),
        i64::MIN <= a + b <= i64::MAX,
    ensures
        execute_spec(seq!["add"@, s1, s2]) == Ok::<Seq<char>, Seq<char>>(
            math_line(a, Op::Add, b, (a + b) as i64),
        ),
{
    lemma_dispatch_math(seq!["add"@, s1, s2], Op::Add);
}

/// For all valid operands whose difference fits, `sub` outputs the
/// difference.
pub proof fn lemma_sub_outputs_difference(s1: Seq<char>, s2: Seq<char>, a: i64, b: i64)
    requires
        parse_i64_spec(s1) == Ok::<i64, ParseIntError>(a),
        parse_i64_spec(s2) == Ok::<i64, ParseIntError>(b),
        i64::MIN <= a - b <= i64::MAX,
    ensures
        execute_spec(seq!["sub"@, s1, s2]) == Ok::<Seq<char>, Seq<char>>(
            math_line(a, Op::Sub, b, (a - b) as i64),
        ),
{
    lemma_dispatch_math(seq!["sub"@, s1, s2], Op::Sub);
}

/// For all valid operands whose product fits, `mul` outputs the product.
pub proof fn lemma_mul_outputs_product(s1: Seq<char>, s2: Seq<char>, a: i64, b: i64)
    requires
        parse_i64_spec(s1) == Ok::<i64, ParseIntError>(a),
        parse_i64_spec(s2) == Ok::<i64, ParseIntError>(b),
        i64::MIN <= a * b <= i64::MAX,
    ensures
        execute_spec(seq!["mul"@, s1, s2]) == Ok::<Seq<char>, Seq<char>>(
            math_line(a, Op::Mul, b, (a * b) as i64),
        ),
{
    lemma_dispatch_math(seq!["mul"@, s1, s2], Op::Mul);
    let p = a as int * b as int;
    let m = 0x1_0000_0000_0000_0000;
    if p >= 0 {
        lemma_small_mod(p as nat, m as nat);
        assert(p % m == p);
    } else {
        lemma_mod_add_multiples_vanish(p, m);
        lemma_small_mod((p + m) as nat, m as nat);
        assert(p % m == p + m);
    }
    assert(vstd::wrapping::i64_specs::wrapping_mul(a, b) == (a * b) as i64);
}

/// For all valid operands with a nonzero divisor, `div` outputs the
/// quotient truncated toward zero (the smallest value divided by minus one
/// wraps to the smallest value).
pub proof fn lemma_div_outputs_quotient(s1: Seq<char>, s2: Seq<char>, a: i64, b: i64)
    requires
        parse_i64_spec(s1) == Ok::<i64, ParseIntError>(a),
        parse_i64_spec(s2) == Ok::<i64, ParseIntError>(b),
        b != 0,
        !(a == i64::MIN && b == -1),
    ensures
        execute_spec(seq!["div"@, s1, s2]) == Ok::<Seq<char>, Seq<char>>(
            math_line(a, Op::Div, b, div_trunc_i64(a, b)),
        ),
        div_trunc_i64(a, b) as int == div_trunc(a as int, b as int),
{
    lemma_dispatch_math(seq!["div"@, s1, s2], Op::Div);
    if a > 0 && b > 0 {
        lemma_div_nonincreasing(a as int, b as int);
        lemma_div_pos_is_pos(a as int, b as int);
    }
    if a < 0 && b < 0 {
        lemma_div_nonincreasing(-(a as int), -(b as int));
        lemma_div_pos_is_pos(-(a as int), -(b as int));
        if a == i64::MIN {
            lemma_div_is_strictly_smaller(-(a as int), -(b as int));
        }
    }
    if a < 0 && b > 0 {
        lemma_div_nonincreasing(-(a as int), b as int);
        lemma_div_pos_is_pos(-(a as int), b as int);
    }
    if a > 0 && b < 0 {
        lemma_div_nonincreasing(a as int, -(b as int));
        lemma_div_pos_is_pos(a as int, -(b as int));
    }
}

/// For all valid operands, `div` by zero fails with the fixed domain error
/// and yields no output line.
pub proof fn lemma_div_by_zero(s1: Seq<char>, s2: Seq<char>, a: i64)
    requires
        parse_i64_spec(s1) == Ok::<i64, ParseIntError>(a),
        parse_i64_spec(s2) == Ok::<i64, ParseIntError>(0i64),
    ensures
        execute_spec(seq!["div"@, s1, s2]) == Err::<Seq<char>, Seq<char>>(div_zero_text()),
{
    lemma_dispatch_math(seq!["div"@, s1, s2], Op::Div);
}

/// An arithmetic command invoked with other than exactly two operands fails
/// with the usage error for that command.
pub proof fn lemma_math_wrong_operand_count(args: Seq<Seq<char>>, op: Op)
    requires
        args.len() >= 1,
        args[0] == op_token(op),
        args.len() != 3,
    ensures
        execute_spec(args) == Err::<Seq<char>, Seq<char>>(usage_text(op_token(op))),
{
    lemma_dispatch_math(args, op);
}

/// An arithmetic command whose first operand is not a 64-bit signed integer
/// fails with that parse failure's message.
pub proof fn lemma_first_operand_parse_error(args: Seq<Seq<char>>, op: Op, e: ParseIntError)
    requires
        args.len() == 3,
        args[0] == op_token(op),
        parse_i64_spec(args[1]) == Err::<i64, ParseIntError>(e),
    ensures
        execute_spec(args) == Err::<Seq<char>, Seq<char>>(parse_error_text(e)),
{
    lemma_dispatch_math(args, op);
}

/// An arithmetic command whose second operand is not a 64-bit signed integer
/// fails with that parse failure's message, whatever the first operand was.
pub proof fn lemma_second_operand_parse_error(
    args: Seq<Seq<char>>,
    op: Op,
    a: i64,
    e: ParseIntError,
)
    requires
        args.len() == 3,
        args[0] == op_token(op),
        parse_i64_spec(args[1]) == Ok::<i64, ParseIntError>(a),
        parse_i64_spec(args[2]) == Err::<i64, ParseIntError>(e),
    ensures
        execute_spec(args) == Err::<Seq<char>, Seq<char>>(parse_error_text(e)),
{
    lemma_dispatch_math(args, op);
}

/// `help` always succeeds, whatever follows the first token. It also never
/// mutates state: `execute` takes its receiver by shared reference.
pub proof fn lemma_help_always_succeeds(args: Seq<Seq<char>>)
    requires
        args.len() >= 1,
        args[0] == "help"@,
    ensures
        execute_spec(args) == Ok::<Seq<char>, Seq<char>>(help_text()),
{
    reveal_strlit("add");
    reveal_strlit("sub");
    reveal_strlit("mul");
    reveal_strlit("div");
    reveal_strlit("help");
    assert("help"@.len() == 4 && "add"@.len() == 3 && "sub"@.len() == 3 && "mul"@.len() == 3
        && "div"@.len() == 3);
}

/// An unrecognized first token, or an empty invocation, fails with the
/// routing error, which names the plugin and points to `help`.
pub proof fn lemma_unknown_command(args: Seq<Seq<char>>)
    requires
        args.len() == 0 || (args[0] != "add"@ && args[0] != "sub"@ && args[0] != "mul"@
            && args[0] != "div"@ && args[0] != "help"@),
    ensures
        execute_spec(args) == Err::<Seq<char>, Seq<char>>(unknown_command_text()),
        contains_subseq(unknown_command_text(), "example"@),
        contains_subseq(unknown_command_text(), "help"@),
{
    reveal_strlit("Unknown command. Use 'example help' for usage");
    reveal_strlit("example");
    reveal_strlit("help");
    assert(unknown_command_text().subrange(22, 22 + "example"@.len() as int) =~= "example"@);
    assert(unknown_command_text().subrange(30, 30 + "help"@.len() as int) =~= "help"@);
}

/// `configure` stores the given string verbatim and the last write wins:
/// configuring twice leaves exactly the second string.
pub proof fn lemma_configure_last_write_wins(v: PluginView, c1: Seq<char>, c2: Seq<char>)
    ensures
        configure_post(configure_post(v, c1), c2) == configure_post(v, c2),
        configure_post(v, c2).config == Some(c2),
{
    assert(configure_post(configure_post(v, c1), c2) =~= configure_post(v, c2));
}

} // verus!
