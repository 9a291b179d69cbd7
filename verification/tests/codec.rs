use nubdb::command::{bare_command, keyed_command, set_command, Operation};
use nubdb::error::Error;
use nubdb::frame::{extract_line, frame};
use nubdb::reply::{
    decode, decode_counter, decode_exists, decode_flag, decode_size, decode_value, Reply,
};
use nubdb::text::{whitespace, CharClass};

#[test]
fn set_command_without_ttl() {
    assert_eq!(set_command("name", "Alice", None), "SET name \"Alice\"");
    assert_eq!(set_command("k", "", None), "SET k \"\"");
    assert_eq!(set_command("", "v", None), "SET  \"v\"");
    assert_eq!(set_command("k", "two words", None), "SET k \"two words\"");
}

#[test]
fn set_command_with_ttl() {
    assert_eq!(set_command("name", "Alice", Some(60)), "SET name \"Alice\" 60");
    assert_eq!(set_command("k", "v", Some(0)), "SET k \"v\" 0");
    assert_eq!(set_command("k", "v", Some(7)), "SET k \"v\" 7");
    assert_eq!(set_command("k", "v", Some(10)), "SET k \"v\" 10");
    assert_eq!(set_command("k", "v", Some(1009)), "SET k \"v\" 1009");
    assert_eq!(set_command("k", "v", Some(u32::MAX)), "SET k \"v\" 4294967295");
}

#[test]
fn set_command_does_not_escape() {
    assert_eq!(set_command("k", "say \"hi\"", None), "SET k \"say \"hi\"\"");
    assert_eq!(set_command("a b", "x\ny", Some(1)), "SET a b \"x\ny\" 1");
}

#[test]
fn set_command_writes_the_ttl_as_std_does() {
    let mut ttl: u32 = 0;
    for step in 0..4000u32 {
        assert_eq!(set_command("k", "v", Some(ttl)), format!("SET k \"v\" {}", ttl));
        ttl = ttl.wrapping_mul(1_664_525).wrapping_add(1_013_904_223).wrapping_add(step);
    }
    for ttl in [9, 10, 99, 100, 999, 1000, 999_999_999, 1_000_000_000, u32::MAX - 1] {
        assert_eq!(set_command("k", "v", Some(ttl)), format!("SET k \"v\" {}", ttl));
    }
}

#[test]
fn keyed_commands() {
    assert_eq!(keyed_command(Operation::Get, "name"), "GET name");
    assert_eq!(keyed_command(Operation::Delete, "name"), "DELETE name");
    assert_eq!(keyed_command(Operation::Exists, "name"), "EXISTS name");
    assert_eq!(keyed_command(Operation::Incr, "hits"), "INCR hits");
    assert_eq!(keyed_command(Operation::Decr, "hits"), "DECR hits");
    assert_eq!(keyed_command(Operation::Get, ""), "GET ");
    assert_eq!(keyed_command(Operation::Get, "clé"), "GET clé");
}

#[test]
fn bare_commands() {
    assert_eq!(bare_command(Operation::Size), "SIZE");
    assert_eq!(bare_command(Operation::Clear), "CLEAR");
    assert_eq!(bare_command(Operation::Quit), "QUIT");
}

#[test]
fn every_verb() {
    assert_eq!(Operation::Store.keyword(), "SET");
    assert_eq!(Operation::Get.keyword(), "GET");
    assert_eq!(Operation::Delete.keyword(), "DELETE");
    assert_eq!(Operation::Exists.keyword(), "EXISTS");
    assert_eq!(Operation::Incr.keyword(), "INCR");
    assert_eq!(Operation::Decr.keyword(), "DECR");
    assert_eq!(Operation::Size.keyword(), "SIZE");
    assert_eq!(Operation::Clear.keyword(), "CLEAR");
    assert_eq!(Operation::Quit.keyword(), "QUIT");
}

#[test]
fn frame_adds_one_terminator() {
    assert_eq!(frame("SIZE".to_string()), "SIZE\n");
    assert_eq!(frame(String::new()), "\n");
    assert_eq!(frame("GET a\n".to_string()), "GET a\n\n");
}

#[test]
fn extract_line_strips_terminator_and_whitespace() {
    assert_eq!(extract_line("OK\n"), Some("OK".to_string()));
    assert_eq!(extract_line("OK\r\n"), Some("OK".to_string()));
    assert_eq!(extract_line("  OK \t\n"), Some("OK".to_string()));
    assert_eq!(extract_line("3 keys\n"), Some("3 keys".to_string()));
    assert_eq!(extract_line("\" padded \"\n"), Some("\" padded \"".to_string()));
    assert_eq!(extract_line("\n"), Some(String::new()));
    assert_eq!(extract_line(" \u{a0}\u{3000}\n"), Some(String::new()));
    assert_eq!(extract_line("\u{2003}é\u{2003}\n"), Some("é".to_string()));
    assert_eq!(extract_line("a\nb\n"), Some("a\nb".to_string()));
}

#[test]
fn extract_line_wants_the_terminator() {
    assert_eq!(extract_line(""), None);
    assert_eq!(extract_line("OK"), None);
    assert_eq!(extract_line("OK\r"), None);
    assert_eq!(extract_line("OK\n "), None);
    assert_eq!(extract_line("   "), None);
}

#[test]
fn flag_is_true_for_ok_only() {
    assert!(decode_flag("OK"));
    for line in ["", "O", "OK ", " OK", "ok", "Ok", "OKAY", "KO", "1", "ERR", "\"OK\""] {
        assert!(!decode_flag(line), "{:?}", line);
    }
}

#[test]
fn exists_is_true_for_one_only() {
    assert!(decode_exists("1"));
    for line in ["", "0", "2", "01", "1 ", " 1", "11", "+1", "true", "OK", "١"] {
        assert!(!decode_exists(line), "{:?}", line);
    }
}

#[test]
fn value_is_none_for_nil_only() {
    assert_eq!(decode_value("(nil)"), None);
    assert_eq!(decode_value("\"(nil)\""), Some("(nil)".to_string()));
    assert_eq!(decode_value("(nil) "), Some("(nil) ".to_string()));
    assert_eq!(decode_value("(NIL)"), Some("(NIL)".to_string()));
    assert_eq!(decode_value("nil"), Some("nil".to_string()));
}

#[test]
fn value_loses_the_quotes_at_its_ends() {
    assert_eq!(decode_value("\"Alice\""), Some("Alice".to_string()));
    assert_eq!(decode_value("\"\""), Some(String::new()));
    assert_eq!(decode_value(""), Some(String::new()));
    assert_eq!(decode_value("\""), Some(String::new()));
    assert_eq!(decode_value("\"\"\"\""), Some(String::new()));
    assert_eq!(decode_value("\" spaced \""), Some(" spaced ".to_string()));
    assert_eq!(decode_value("\"naïve ☃\""), Some("naïve ☃".to_string()));
}

#[test]
fn value_of_another_shape_is_kept_as_it_is() {
    assert_eq!(decode_value("Alice"), Some("Alice".to_string()));
    assert_eq!(decode_value("\"Alice"), Some("Alice".to_string()));
    assert_eq!(decode_value("Alice\""), Some("Alice".to_string()));
    assert_eq!(decode_value("\"\"Alice\"\"\""), Some("Alice".to_string()));
    assert_eq!(decode_value("\"a\"b\""), Some("a\"b".to_string()));
    assert_eq!(decode_value("ERR unknown"), Some("ERR unknown".to_string()));
    assert_eq!(decode_value(" \"a\" "), Some(" \"a\" ".to_string()));
}

#[test]
fn counter_reads_signed_integers() {
    assert_eq!(decode_counter("0"), Ok(0));
    assert_eq!(decode_counter("1"), Ok(1));
    assert_eq!(decode_counter("-1"), Ok(-1));
    assert_eq!(decode_counter("+1"), Ok(1));
    assert_eq!(decode_counter("-0"), Ok(0));
    assert_eq!(decode_counter("+0"), Ok(0));
    assert_eq!(decode_counter("42"), Ok(42));
    assert_eq!(decode_counter("007"), Ok(7));
    assert_eq!(decode_counter("-007"), Ok(-7));
    assert_eq!(decode_counter("1234567890123"), Ok(1_234_567_890_123));
}

#[test]
fn counter_reads_the_ends_of_the_range() {
    assert_eq!(decode_counter("9223372036854775807"), Ok(i64::MAX));
    assert_eq!(decode_counter("+9223372036854775807"), Ok(i64::MAX));
    assert_eq!(decode_counter("-9223372036854775808"), Ok(i64::MIN));
    assert_eq!(decode_counter("-9223372036854775807"), Ok(i64::MIN + 1));
    assert_eq!(decode_counter("0000000000000000000000009223372036854775807"), Ok(i64::MAX));
    assert_eq!(decode_counter("-000000000000000000000009223372036854775808"), Ok(i64::MIN));
}

#[test]
fn counter_out_of_range_is_a_decode_error() {
    assert_eq!(decode_counter("9223372036854775808"), Err(Error::Decode));
    assert_eq!(decode_counter("-9223372036854775809"), Err(Error::Decode));
    assert_eq!(decode_counter("18446744073709551615"), Err(Error::Decode));
    assert_eq!(decode_counter("18446744073709551616"), Err(Error::Decode));
    assert_eq!(decode_counter("92233720368547758070"), Err(Error::Decode));
    assert_eq!(decode_counter("340282366920938463463374607431768211456"), Err(Error::Decode));
    assert_eq!(
        decode_counter("99999999999999999999999999999999999999999999999999999999999999"),
        Err(Error::Decode)
    );
}

#[test]
fn counter_of_other_text_is_a_decode_error() {
    for line in [
        "", "+", "-", "+-1", "-+1", "--1", "++1", "1-", "1+", " 1", "1 ", "1 2", "1.0", "1e3",
        "0x1f", "abc", "1a", "a1", "OK", "(nil)", "\"1\"", "١٢٣", "１２", "1_000", "1,000",
    ] {
        assert_eq!(decode_counter(line), Err(Error::Decode), "{:?}", line);
    }
}

#[test]
fn size_reads_the_first_token() {
    assert_eq!(decode_size("0"), Ok(0));
    assert_eq!(decode_size("3 keys"), Ok(3));
    assert_eq!(decode_size("3"), Ok(3));
    assert_eq!(decode_size("  12  keys  "), Ok(12));
    assert_eq!(decode_size("12\tkeys"), Ok(12));
    assert_eq!(decode_size("12\u{3000}keys"), Ok(12));
    assert_eq!(decode_size("+7"), Ok(7));
    assert_eq!(decode_size("007 bonds"), Ok(7));
    assert_eq!(decode_size("5 -1 x"), Ok(5));
}

#[test]
fn size_of_an_empty_line_is_zero() {
    assert_eq!(decode_size(""), Ok(0));
    assert_eq!(decode_size("   "), Ok(0));
    assert_eq!(decode_size("\t\u{a0}"), Ok(0));
}

#[test]
fn size_reads_the_ends_of_the_range() {
    assert_eq!(decode_size(&usize::MAX.to_string()), Ok(usize::MAX));
    assert_eq!(decode_size(&format!("{} keys", usize::MAX)), Ok(usize::MAX));
    assert_eq!(decode_size(&format!("{}0", usize::MAX)), Err(Error::Decode));
    assert_eq!(decode_size(&(usize::MAX as u128 + 1).to_string()), Err(Error::Decode));
    assert_eq!(decode_size("340282366920938463463374607431768211456"), Err(Error::Decode));
}

#[test]
fn size_of_other_text_is_a_decode_error() {
    for line in [
        "keys 3", "-1", "-0", "+", "-", "3keys", "3,000", "3.5", "0x10", "three", "(nil)", "OK",
        "\"3\"", "٣",
    ] {
        assert_eq!(decode_size(line), Err(Error::Decode), "{:?}", line);
    }
}

#[test]
fn decode_goes_by_the_operation() {
    assert_eq!(decode(Operation::Store, "OK"), Ok(Reply::Flag(true)));
    assert_eq!(decode(Operation::Store, "1"), Ok(Reply::Flag(false)));
    assert_eq!(decode(Operation::Delete, "OK"), Ok(Reply::Flag(true)));
    assert_eq!(decode(Operation::Delete, "0"), Ok(Reply::Flag(false)));
    assert_eq!(decode(Operation::Clear, "OK"), Ok(Reply::Flag(true)));
    assert_eq!(decode(Operation::Clear, ""), Ok(Reply::Flag(false)));
    assert_eq!(decode(Operation::Exists, "1"), Ok(Reply::Flag(true)));
    assert_eq!(decode(Operation::Exists, "OK"), Ok(Reply::Flag(false)));
    assert_eq!(decode(Operation::Get, "\"1\""), Ok(Reply::Value(Some("1".to_string()))));
    assert_eq!(decode(Operation::Get, "OK"), Ok(Reply::Value(Some("OK".to_string()))));
    assert_eq!(decode(Operation::Get, "(nil)"), Ok(Reply::Value(None)));
    assert_eq!(decode(Operation::Incr, "1"), Ok(Reply::Number(1)));
    assert_eq!(decode(Operation::Decr, "-1"), Ok(Reply::Number(-1)));
    assert_eq!(decode(Operation::Incr, "OK"), Err(Error::Decode));
    assert_eq!(decode(Operation::Decr, "(nil)"), Err(Error::Decode));
    assert_eq!(decode(Operation::Size, "1"), Ok(Reply::Count(1)));
    assert_eq!(decode(Operation::Size, "1 OK"), Ok(Reply::Count(1)));
    assert_eq!(decode(Operation::Size, "OK"), Err(Error::Decode));
    assert_eq!(decode(Operation::Quit, "OK"), Ok(Reply::Closed));
    assert_eq!(decode(Operation::Quit, "anything"), Ok(Reply::Closed));
}

#[test]
fn reply_shapes_come_apart() {
    assert_eq!(Reply::Flag(true).into_flag(), Ok(true));
    assert_eq!(Reply::Flag(false).into_flag(), Ok(false));
    assert_eq!(Reply::Value(Some("v".to_string())).into_value(), Ok(Some("v".to_string())));
    assert_eq!(Reply::Value(None).into_value(), Ok(None));
    assert_eq!(Reply::Number(-3).into_number(), Ok(-3));
    assert_eq!(Reply::Count(3).into_count(), Ok(3));

    assert_eq!(Reply::Number(1).into_flag(), Err(Error::Protocol));
    assert_eq!(Reply::Closed.into_flag(), Err(Error::Protocol));
    assert_eq!(Reply::Flag(true).into_value(), Err(Error::Protocol));
    assert_eq!(Reply::Closed.into_value(), Err(Error::Protocol));
    assert_eq!(Reply::Count(1).into_number(), Err(Error::Protocol));
    assert_eq!(Reply::Flag(true).into_number(), Err(Error::Protocol));
    assert_eq!(Reply::Number(1).into_count(), Err(Error::Protocol));
    assert_eq!(Reply::Value(None).into_count(), Err(Error::Protocol));
}

#[test]
fn error_messages() {
    assert_eq!(Error::Connection.message(), "connection failed");
    assert_eq!(Error::Transport.message(), "transport failed");
    assert_eq!(Error::Protocol.message(), "reply framing broken");
    assert_eq!(Error::Decode.message(), "reply is not a valid integer");
}

#[test]
fn whitespace_is_what_std_calls_whitespace() {
    for code in 0..=0x10FFFFu32 {
        if let Some(c) = char::from_u32(code) {
            assert_eq!(whitespace(c), c.is_whitespace(), "U+{:04X}", code);
            assert_eq!(CharClass::Whitespace.contains(c), c.is_whitespace(), "U+{:04X}", code);
            assert_eq!(CharClass::Visible.contains(c), !c.is_whitespace(), "U+{:04X}", code);
            assert_eq!(CharClass::Quote.contains(c), c == '"', "U+{:04X}", code);
        }
    }
}
