use lazy_git_ext::message::{assemble_message, normalize};

fn tokens(words: &[&str]) -> Vec<String> {
    words.iter().map(|word| word.to_string()).collect()
}

fn normalized(text: &str) -> String {
    normalize(&text.chars().collect()).into_iter().collect()
}

#[test]
fn tokens_are_joined_with_single_spaces() {
    assert_eq!(assemble_message(&tokens(&["Fix", "the", "bug"])), "Fix the bug");
}

#[test]
fn no_tokens_give_an_empty_message() {
    assert_eq!(assemble_message(&tokens(&[])), "");
}

#[test]
fn one_empty_token_gives_an_empty_message() {
    assert_eq!(assemble_message(&tokens(&[""])), "");
}

#[test]
fn escape_becomes_a_line_break() {
    assert_eq!(assemble_message(&tokens(&["Title\\nBody"])), "Title\nBody");
    assert_eq!(assemble_message(&tokens(&["one\\ntwo\\nthree"])), "one\ntwo\nthree");
}

#[test]
fn escape_across_joined_tokens_is_expanded() {
    assert_eq!(assemble_message(&tokens(&["Title\\n", "Body"])), "Title\nBody");
}

#[test]
fn lone_backslash_is_kept() {
    assert_eq!(assemble_message(&tokens(&["a\\b"])), "a\\b");
    assert_eq!(assemble_message(&tokens(&["end\\"])), "end\\");
}

#[test]
fn doubled_backslash_before_n_expands_the_second() {
    assert_eq!(assemble_message(&tokens(&["a\\\\nb"])), "a\\\nb");
}

#[test]
fn each_line_is_trimmed() {
    assert_eq!(assemble_message(&tokens(&["  Title  \\n\t body \t"])), "Title\nbody");
    assert_eq!(assemble_message(&tokens(&[" padded "])), "padded");
}

#[test]
fn unicode_white_space_is_trimmed() {
    assert_eq!(assemble_message(&tokens(&["\u{a0}x\u{3000}"])), "x");
    assert_eq!(assemble_message(&tokens(&["\u{2003}y z\u{85}"])), "y z");
}

#[test]
fn inner_white_space_is_kept() {
    assert_eq!(assemble_message(&tokens(&["a  b", "c"])), "a  b c");
}

#[test]
fn one_trailing_blank_line_is_removed() {
    assert_eq!(assemble_message(&tokens(&["Title\\n"])), "Title");
    assert_eq!(assemble_message(&tokens(&["Title\\n   "])), "Title");
    assert_eq!(assemble_message(&tokens(&["Title\\n\\n"])), "Title\n");
}

#[test]
fn inner_blank_line_is_kept() {
    assert_eq!(assemble_message(&tokens(&["Title\\n\\nBody"])), "Title\n\nBody");
}

#[test]
fn real_line_breaks_split_lines_too() {
    assert_eq!(assemble_message(&tokens(&[" Title \n Body "])), "Title\nBody");
}

#[test]
fn separator_parts_title_from_description() {
    assert_eq!(
        assemble_message(&tokens(&["Title", "--subj", "Some", "description"])),
        "Title\n\nSome description"
    );
}

#[test]
fn separator_parts_are_normalized_apart() {
    assert_eq!(
        assemble_message(&tokens(&[" Add", "parser\\n", "--subj", " first\\nsecond ", "\\n"])),
        "Add parser\n\nfirst\nsecond"
    );
}

#[test]
fn separator_alone_gives_two_line_breaks() {
    assert_eq!(assemble_message(&tokens(&["--subj"])), "\n\n");
}

#[test]
fn separator_without_description_ends_with_an_empty_line() {
    assert_eq!(assemble_message(&tokens(&["Title", "--subj"])), "Title\n\n");
}

#[test]
fn separator_without_title_starts_with_an_empty_line() {
    assert_eq!(assemble_message(&tokens(&["--subj", "Body"])), "\n\nBody");
}

#[test]
fn only_the_first_separator_parts() {
    assert_eq!(
        assemble_message(&tokens(&["a", "--subj", "b", "--subj", "c"])),
        "a\n\nb --subj c"
    );
}

#[test]
fn separator_inside_a_token_is_text() {
    assert_eq!(assemble_message(&tokens(&["a--subj", "b"])), "a--subj b");
    assert_eq!(assemble_message(&tokens(&["x --subj y"])), "x --subj y");
}

#[test]
fn assembly_keeps_a_normalized_message() {
    for message in [
        "",
        "Title",
        "Title\n\nBody of the message",
        "one\ntwo\nthree",
        "a\\b",
        "Add parser\n\nfirst\nsecond",
    ] {
        assert_eq!(assemble_message(&tokens(&[message])), message);
    }
}

#[test]
fn assembly_of_its_own_result_changes_nothing_for_plain_messages() {
    let once = assemble_message(&tokens(&["  Title \\n  body", "more  "]));
    assert_eq!(once, "Title\nbody more");
    assert_eq!(assemble_message(&vec![once.clone()]), once);
}

#[test]
fn normalize_works_on_characters() {
    assert_eq!(normalized(" a \\n b "), "a\nb");
    assert_eq!(normalized(""), "");
    assert_eq!(normalized("\\n"), "");
    assert_eq!(normalized("\n\n"), "\n");
    assert_eq!(normalized("x"), "x");
}
