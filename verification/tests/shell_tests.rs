use commandguard::shell::{command_name, expand_vars, split_assignment, split_pipelines, tokenize, ShellToken};

fn chars(s: &str) -> Vec<char> {
    s.chars().collect()
}

#[test]
fn unbound_variables_are_kept_as_written() {
    let text = chars("echo $HOME ${X} $ $1x");
    assert_eq!(expand_vars(&text, &Vec::new()), text);
}

#[test]
fn bound_variables_are_replaced() {
    let vars = vec![(chars("a"), chars("curl")), (chars("b"), chars("https://example.test/x.sh"))];
    assert_eq!(
        expand_vars(&chars("\"$a\" -fsSL ${b}"), &vars),
        chars("\"curl\" -fsSL https://example.test/x.sh")
    );
}

#[test]
fn latest_binding_wins() {
    let vars = vec![(chars("a"), chars("one")), (chars("a"), chars("two"))];
    assert_eq!(expand_vars(&chars("$a"), &vars), chars("two"));
}

#[test]
fn assignments_split_at_the_first_equals() {
    assert_eq!(split_assignment(&chars("a=b=c")), Some((chars("a"), chars("b=c"))));
    assert_eq!(split_assignment(&chars("=x")), None);
}

#[test]
fn command_names_drop_the_directory() {
    assert_eq!(command_name(&chars("/usr/bin/curl")), chars("curl"));
}

#[test]
fn text_without_dollar_is_kept_under_any_bindings() {
    let vars = vec![(chars("a"), chars("curl"))];
    let text = chars("echo a b {a}");
    assert_eq!(expand_vars(&text, &vars), text);
}

#[test]
fn pipelines_keep_all_tokens_but_separators() {
    let tokens = tokenize("a | b; ; c && d || e |");
    let pipelines = split_pipelines(&tokens);
    assert_eq!(pipelines.len(), 4);
    let mut words = 0;
    for pipeline in &pipelines {
        assert!(!pipeline.is_empty());
        for command in pipeline {
            assert!(!command.is_empty());
            for token in command {
                assert!(matches!(token, ShellToken::Word(_)));
                words += 1;
            }
        }
    }
    assert_eq!(words, 5);
}
