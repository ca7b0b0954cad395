use example_plugin::numtext::{parse_i64, i64_to_string, ParseIntError};
use example_plugin::ExamplePlugin;

fn args(tokens: &[&str]) -> Vec<String> {
    tokens.iter().map(|t| t.to_string()).collect()
}

#[test]
fn test_add() {
    let plugin = ExamplePlugin::default();
    let args = vec!["add".to_string(), "5".to_string(), "3".to_string()];
    assert!(plugin.execute(&args).is_ok());
}

#[test]
fn test_div_by_zero() {
    let plugin = ExamplePlugin::default();
    let args = vec!["div".to_string(), "5".to_string(), "0".to_string()];
    assert!(plugin.execute(&args).is_err());
}

#[test]
fn add_outputs_sum_line() {
    let plugin = ExamplePlugin::default();
    assert_eq!(plugin.execute(&args(&["add", "5", "3"])).unwrap(), "5 + 3 = 8");
}

#[test]
fn sub_outputs_difference_line() {
    let plugin = ExamplePlugin::default();
    assert_eq!(plugin.execute(&args(&["sub", "5", "3"])).unwrap(), "5 - 3 = 2");
    assert_eq!(plugin.execute(&args(&["sub", "3", "5"])).unwrap(), "3 - 5 = -2");
}

#[test]
fn mul_outputs_product_line() {
    let plugin = ExamplePlugin::default();
    assert_eq!(plugin.execute(&args(&["mul", "-4", "6"])).unwrap(), "-4 * 6 = -24");
}

#[test]
fn div_truncates_toward_zero() {
    let plugin = ExamplePlugin::default();
    assert_eq!(plugin.execute(&args(&["div", "7", "2"])).unwrap(), "7 / 2 = 3");
    assert_eq!(plugin.execute(&args(&["div", "-7", "2"])).unwrap(), "-7 / 2 = -3");
    assert_eq!(plugin.execute(&args(&["div", "7", "-2"])).unwrap(), "7 / -2 = -3");
    assert_eq!(plugin.execute(&args(&["div", "-7", "-2"])).unwrap(), "-7 / -2 = 3");
}

#[test]
fn div_by_zero_message() {
    let plugin = ExamplePlugin::default();
    assert_eq!(
        plugin.execute(&args(&["div", "5", "0"])).unwrap_err(),
        "Division by zero!"
    );
}

#[test]
fn wrong_operand_count_is_usage_error() {
    let plugin = ExamplePlugin::default();
    assert_eq!(
        plugin.execute(&args(&["sub", "2", "2", "2"])).unwrap_err(),
        "Usage: example sub <num1> <num2>"
    );
    assert_eq!(
        plugin.execute(&args(&["add"])).unwrap_err(),
        "Usage: example add <num1> <num2>"
    );
    assert_eq!(
        plugin.execute(&args(&["mul", "1"])).unwrap_err(),
        "Usage: example mul <num1> <num2>"
    );
    assert_eq!(
        plugin.execute(&args(&["div", "1", "2", "3"])).unwrap_err(),
        "Usage: example div <num1> <num2>"
    );
}

#[test]
fn unparseable_operand_is_parse_error() {
    let plugin = ExamplePlugin::default();
    assert_eq!(
        plugin.execute(&args(&["mul", "x", "3"])).unwrap_err(),
        "invalid digit found in string"
    );
    assert_eq!(
        plugin.execute(&args(&["add", "1", ""])).unwrap_err(),
        "cannot parse integer from empty string"
    );
    assert_eq!(
        plugin.execute(&args(&["add", "9223372036854775808", "1"])).unwrap_err(),
        "number too large to fit in target type"
    );
    assert_eq!(
        plugin.execute(&args(&["add", "-9223372036854775809", "1"])).unwrap_err(),
        "number too small to fit in target type"
    );
}

#[test]
fn unknown_command_mentions_name_and_help() {
    let plugin = ExamplePlugin::default();
    let err = plugin.execute(&args(&["foo"])).unwrap_err();
    assert_eq!(err, "Unknown command. Use 'example help' for usage");
    assert!(err.contains("example"));
    assert!(err.contains("help"));
    let empty: Vec<String> = Vec::new();
    assert_eq!(
        plugin.execute(&empty).unwrap_err(),
        "Unknown command. Use 'example help' for usage"
    );
}

#[test]
fn help_succeeds_and_lists_commands() {
    let plugin = ExamplePlugin::default();
    let out = plugin.execute(&args(&["help"])).unwrap();
    assert_eq!(out, plugin.help());
    assert!(out.contains("add"));
    assert!(out.contains("sub"));
    assert!(out.contains("mul"));
    assert!(out.contains("div"));
    assert!(out.contains("help"));
    // Extra tokens after `help` are ignored.
    assert!(plugin.execute(&args(&["help", "me"])).is_ok());
}

#[test]
fn arithmetic_wraps_on_overflow() {
    let plugin = ExamplePlugin::default();
    assert_eq!(
        plugin.execute(&args(&["add", "9223372036854775807", "1"])).unwrap(),
        "9223372036854775807 + 1 = -9223372036854775808"
    );
    assert_eq!(
        plugin.execute(&args(&["sub", "-9223372036854775808", "1"])).unwrap(),
        "-9223372036854775808 - 1 = 9223372036854775807"
    );
    assert_eq!(
        plugin.execute(&args(&["div", "-9223372036854775808", "-1"])).unwrap(),
        "-9223372036854775808 / -1 = -9223372036854775808"
    );
}

#[test]
fn configure_last_write_wins() {
    let mut plugin = ExamplePlugin::default();
    assert!(plugin.current_config().is_none());
    assert!(plugin.configure("foo").is_ok());
    assert_eq!(plugin.current_config().unwrap(), "foo");
    assert!(plugin.configure("bar").is_ok());
    assert_eq!(plugin.current_config().unwrap(), "bar");
}

#[test]
fn init_sets_display_name() {
    let mut plugin = ExamplePlugin::default();
    assert_eq!(plugin.current_display_name(), "");
    assert!(plugin.init().is_ok());
    assert_eq!(plugin.current_display_name(), "Example Plugin");
    assert!(plugin.cleanup().is_ok());
    assert_eq!(plugin.current_display_name(), "Example Plugin");
}

#[test]
fn metadata_is_constant() {
    let plugin = ExamplePlugin::default();
    assert_eq!(plugin.name(), "example");
    assert_eq!(plugin.version(), "1.0.0");
    assert_eq!(
        plugin.description(),
        "A simple example plugin that performs basic arithmetic operations"
    );
    let commands = plugin.commands();
    assert_eq!(commands.len(), 5);
    assert_eq!(commands[0], ("add", "Add two numbers: add <num1> <num2>"));
    assert_eq!(commands[1], ("sub", "Subtract two numbers: sub <num1> <num2>"));
    assert_eq!(commands[2], ("mul", "Multiply two numbers: mul <num1> <num2>"));
    assert_eq!(commands[3], ("div", "Divide two numbers: div <num1> <num2>"));
    assert_eq!(commands[4], ("help", "Show this help message"));
}

#[test]
fn parse_accepts_signed_decimals() {
    assert_eq!(parse_i64("123"), Ok(123));
    assert_eq!(parse_i64("+42"), Ok(42));
    assert_eq!(parse_i64("-123"), Ok(-123));
    assert_eq!(parse_i64("0"), Ok(0));
    assert_eq!(parse_i64("-0"), Ok(0));
    assert_eq!(parse_i64("00123"), Ok(123));
    assert_eq!(parse_i64("0000000000000000000000005"), Ok(5));
    assert_eq!(parse_i64("9223372036854775807"), Ok(i64::MAX));
    assert_eq!(parse_i64("-9223372036854775808"), Ok(i64::MIN));
}

#[test]
fn parse_rejects_bad_tokens() {
    assert_eq!(parse_i64(""), Err(ParseIntError::Empty));
    assert_eq!(parse_i64("+"), Err(ParseIntError::InvalidDigit));
    assert_eq!(parse_i64("-"), Err(ParseIntError::InvalidDigit));
    assert_eq!(parse_i64("x"), Err(ParseIntError::InvalidDigit));
    assert_eq!(parse_i64("12 3"), Err(ParseIntError::InvalidDigit));
    assert_eq!(parse_i64("1.5"), Err(ParseIntError::InvalidDigit));
    assert_eq!(parse_i64("--5"), Err(ParseIntError::InvalidDigit));
    assert_eq!(parse_i64("9223372036854775808"), Err(ParseIntError::PosOverflow));
    assert_eq!(parse_i64("99999999999999999999999"), Err(ParseIntError::PosOverflow));
    assert_eq!(parse_i64("-9223372036854775809"), Err(ParseIntError::NegOverflow));
    assert_eq!(parse_i64("-99999999999999999999999"), Err(ParseIntError::NegOverflow));
}

#[test]
fn parse_error_messages_match_native_text() {
    assert_eq!(
        ParseIntError::Empty.message(),
        "".parse::<i64>().unwrap_err().to_string()
    );
    assert_eq!(
        ParseIntError::InvalidDigit.message(),
        "x".parse::<i64>().unwrap_err().to_string()
    );
    assert_eq!(
        ParseIntError::PosOverflow.message(),
        "9223372036854775808".parse::<i64>().unwrap_err().to_string()
    );
    assert_eq!(
        ParseIntError::NegOverflow.message(),
        "-9223372036854775809".parse::<i64>().unwrap_err().to_string()
    );
}

#[test]
fn renders_decimal_strings() {
    assert_eq!(i64_to_string(0), "0");
    assert_eq!(i64_to_string(7), "7");
    assert_eq!(i64_to_string(-5), "-5");
    assert_eq!(i64_to_string(1000), "1000");
    assert_eq!(i64_to_string(i64::MAX), "9223372036854775807");
    assert_eq!(i64_to_string(i64::MIN), "-9223372036854775808");
}

#[test]
fn render_then_parse_round_trips() {
    for v in [0i64, 1, -1, 42, -42, 1000, i64::MAX, i64::MIN] {
        assert_eq!(parse_i64(&i64_to_string(v)), Ok(v));
    }
}

#[test]
fn parse_agrees_with_std() {
    for s in ["0", "-1", "+7", "123456789012345678", "-9223372036854775808",
              "9223372036854775807", "007", "-007"] {
        assert_eq!(parse_i64(s).ok(), s.parse::<i64>().ok());
    }
}
