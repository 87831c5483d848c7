use caliban_operator::shell::sh_squote;

/// How a shell reads one single-quoted word with backslash escapes between the quotes.
fn unquote(word: &str) -> Option<String> {
    let mut out = String::new();
    let mut quoted = false;
    let mut chars = word.chars();
    while let Some(c) = chars.next() {
        match (quoted, c) {
            (_, '\'') => quoted = !quoted,
            (true, c) => out.push(c),
            (false, '\\') => out.push(chars.next()?),
            (false, _) => return None,
        }
    }
    if quoted {
        None
    } else {
        Some(out)
    }
}

#[test]
fn values_are_quoted_exactly() {
    assert_eq!(sh_squote(""), "''");
    assert_eq!(sh_squote("main"), "'main'");
    assert_eq!(sh_squote("a'b"), "'a'\\''b'");
    assert_eq!(sh_squote("'"), "''\\'''");
    assert_eq!(sh_squote("$(x) \\ \"y\""), "'$(x) \\ \"y\"'");
}

#[test]
fn a_quoted_value_is_read_back() {
    for v in ["", "a", "a b", "'", "''", "a'b'c", "\\'", "$HOME;rm -rf /", "é\n'→"] {
        assert_eq!(unquote(&sh_squote(v)).as_deref(), Some(v), "{v:?}");
    }
}
