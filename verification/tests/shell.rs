use entr::shell::{get_shell_cmd, rewrite};

fn words(list: &[&str]) -> Vec<String> {
    list.iter().map(|word| word.to_string()).collect()
}

#[test]
fn the_shell_of_the_environment_is_used() {
    assert_eq!(get_shell_cmd(Some("/bin/bash".to_string())), words(&["/bin/bash", "-c"]));
}

#[test]
fn without_a_shell_in_the_environment_it_is_sh() {
    assert_eq!(get_shell_cmd(None), words(&["/bin/sh", "-c"]));
}

#[test]
fn the_shell_is_taken_as_it_is() {
    assert_eq!(get_shell_cmd(Some("".to_string())), words(&["", "-c"]));
    assert_eq!(get_shell_cmd(Some(" /usr/bin/fish ".to_string())), words(&[" /usr/bin/fish ", "-c"]));
}

#[test]
fn bash_runs_the_utility() {
    assert_eq!(
        rewrite(Some("/bin/bash".to_string()), words(&["make test", "now"])),
        words(&["/bin/bash", "-c", "make test", "now"])
    );
}

#[test]
fn the_words_of_the_utility_keep_their_order() {
    assert_eq!(
        rewrite(None, words(&["c", "a", "b", "a"])),
        words(&["/bin/sh", "-c", "c", "a", "b", "a"])
    );
}

#[test]
fn an_empty_utility_leaves_the_shell_alone() {
    assert_eq!(rewrite(Some("/bin/zsh".to_string()), Vec::new()), words(&["/bin/zsh", "-c"]));
}
