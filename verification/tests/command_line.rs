use ggrs_kad::command::{parse_command, split_words, Command, CommandError};

fn words(line: &str) -> Vec<Vec<u8>> {
    split_words(line.as_bytes())
}

#[test]
fn split_words_matches_str_split() {
    for line in ["", "GET", "GET key", "PUT  k v", " a ", "a  b   c", "LIST_PEERS"] {
        let expected: Vec<Vec<u8>> = line.split(' ').map(|w| w.as_bytes().to_vec()).collect();
        assert_eq!(words(line), expected, "line {:?}", line);
    }
}

#[test]
fn split_words_keeps_empty_words() {
    assert_eq!(words(""), vec![Vec::<u8>::new()]);
    assert_eq!(words(" "), vec![Vec::<u8>::new(), Vec::<u8>::new()]);
    assert_eq!(words("a b"), vec![b"a".to_vec(), b"b".to_vec()]);
}

#[test]
fn parse_list_peers() {
    assert_eq!(parse_command("LIST_PEERS"), Ok(Command::ListPeers));
    assert_eq!(parse_command("LIST_PEERS now please"), Ok(Command::ListPeers));
}

#[test]
fn parse_get() {
    assert_eq!(parse_command("GET apple"), Ok(Command::Get { key: b"apple".to_vec() }));
    assert_eq!(parse_command("GET"), Err(CommandError::ExpectedKey));
    assert_eq!(parse_command("GET  apple"), Ok(Command::Get { key: Vec::new() }));
}

#[test]
fn parse_get_providers() {
    assert_eq!(
        parse_command("GET_PROVIDERS apple"),
        Ok(Command::GetProviders { key: b"apple".to_vec() })
    );
    assert_eq!(parse_command("GET_PROVIDERS"), Err(CommandError::ExpectedKey));
}

#[test]
fn parse_put() {
    assert_eq!(
        parse_command("PUT apple red"),
        Ok(Command::Put { key: b"apple".to_vec(), value: b"red".to_vec() })
    );
    assert_eq!(parse_command("PUT apple"), Err(CommandError::ExpectedValue));
    assert_eq!(parse_command("PUT"), Err(CommandError::ExpectedKey));
}

#[test]
fn parse_put_provider() {
    assert_eq!(
        parse_command("PUT_PROVIDER apple"),
        Ok(Command::PutProvider { key: b"apple".to_vec() })
    );
    assert_eq!(parse_command("PUT_PROVIDER"), Err(CommandError::ExpectedKey));
}

#[test]
fn parse_unknown_commands() {
    assert_eq!(parse_command(""), Err(CommandError::UnknownCommand));
    assert_eq!(parse_command("get apple"), Err(CommandError::UnknownCommand));
    assert_eq!(parse_command(" GET apple"), Err(CommandError::UnknownCommand));
    assert_eq!(parse_command("FIND someone"), Err(CommandError::UnknownCommand));
    assert_eq!(parse_command("GETX apple"), Err(CommandError::UnknownCommand));
}

#[test]
fn parse_keeps_non_ascii_bytes() {
    assert_eq!(
        parse_command("PUT clé värde"),
        Ok(Command::Put { key: "clé".as_bytes().to_vec(), value: "värde".as_bytes().to_vec() })
    );
}

#[test]
fn extra_words_are_ignored() {
    assert_eq!(parse_command("PUT k v w x"), parse_command("PUT k v"));
    assert_eq!(parse_command("GET k extra"), parse_command("GET k"));
    assert_eq!(parse_command("NOPE a b"), parse_command("NOPE"));
}

#[test]
fn command_lines_read_back() {
    let cases = vec![
        Command::ListPeers,
        Command::Get { key: b"k1".to_vec() },
        Command::GetProviders { key: b"k2".to_vec() },
        Command::Put { key: b"k3".to_vec(), value: b"v3".to_vec() },
        Command::PutProvider { key: b"k4".to_vec() },
    ];
    let lines = ["LIST_PEERS", "GET k1", "GET_PROVIDERS k2", "PUT k3 v3", "PUT_PROVIDER k4"];
    for (c, l) in cases.into_iter().zip(lines) {
        assert_eq!(parse_command(l), Ok(c));
    }
}

#[test]
fn error_messages() {
    assert_eq!(CommandError::ExpectedKey.message(), "Expected key");
    assert_eq!(CommandError::ExpectedValue.message(), "Expected value");
    assert_eq!(
        CommandError::UnknownCommand.message(),
        "expected GET, GET_PROVIDERS, PUT or PUT_PROVIDER"
    );
}

#[test]
fn words_join_back_to_the_line() {
    for line in ["", " ", "GET key", "PUT  k v ", "a  b   c", "LIST_PEERS"] {
        let joined = words(line).join(&b' ');
        assert_eq!(joined, line.as_bytes().to_vec(), "line {:?}", line);
    }
}

#[test]
fn parsed_arguments_hold_no_space() {
    match parse_command("PUT a b c") {
        Ok(Command::Put { key, value }) => {
            assert!(!key.contains(&b' '));
            assert!(!value.contains(&b' '));
        }
        other => panic!("unexpected {:?}", other),
    }
}
