use gitforge::highlight::{frame, get_syntax, highlight, Syntaxes};
use gitforge::readme::{render, replacement};
use syntect::parsing::{SyntaxDefinition, SyntaxSet, SyntaxSetBuilder};

fn syntaxes() -> SyntaxSet {
    SyntaxSet::load_defaults_newlines()
}

fn options() -> comrak::Options<'static> {
    let mut options = comrak::Options::default();
    options.extension.autolink = true;
    options.extension.header_id_prefix = Some(String::new());
    options
}

fn name_of(set: &SyntaxSet, token: &str, text: &str) -> Option<String> {
    let syntaxes = Syntaxes::new(set);
    get_syntax(&syntaxes, token, text).map(|at| set.syntaxes()[at].name.clone())
}

fn named(name: &str) -> Option<String> {
    Some(name.to_owned())
}

#[test]
fn a_syntax_goes_by_its_token() {
    let set = syntaxes();
    assert_eq!(name_of(&set, "rs", ""), named("Rust"));
    assert_eq!(name_of(&set, "Rust", ""), named("Rust"));
    assert_eq!(name_of(&set, "diff", ""), named("Diff"));
}

#[test]
fn a_token_is_tried_without_its_first_character() {
    let set = syntaxes();
    assert_eq!(name_of(&set, ".rs", ""), named("Rust"));
    assert_eq!(name_of(&set, "xpy", ""), named("Python"));
}

#[test]
fn the_first_line_gives_the_syntax_away() {
    let set = syntaxes();
    assert_eq!(
        name_of(&set, "unknown", "#!/bin/bash\necho hi\n"),
        named("Bourne Again Shell (bash)")
    );
    assert_eq!(name_of(&set, "rs", "#!/bin/bash\n"), named("Rust"));
}

#[test]
fn what_is_in_no_language_is_plain_text() {
    let set = syntaxes();
    assert_eq!(name_of(&set, "unknown", "just words\n"), named("Plain Text"));
    assert_eq!(name_of(&set, "", ""), named("Plain Text"));
    assert_eq!(name_of(&set, "x", ""), named("Plain Text"));
    let none = SyntaxSet::new();
    assert_eq!(name_of(&none, "rs", "fn main() {}"), None);
}

#[test]
fn coloured_lines_are_framed_as_a_list() {
    assert_eq!(frame(&Vec::new()), "<ol class=\"blob-content__lines\"></ol>");
    assert_eq!(
        frame(&vec!["<b>a</b>\n".to_owned(), "b".to_owned()]),
        "<ol class=\"blob-content__lines\"><li class=\"blob-content__line\"><b>a</b>\n\
         <li class=\"blob-content__line\">b</ol>"
    );
}

#[test]
fn highlighting_asks_for_the_lines_of_the_chosen_syntax() {
    let set = syntaxes();
    let syntaxes = Syntaxes::new(&set);
    let colour = |at: usize, text: &str| -> Vec<String> {
        text.lines().map(|line| format!("{}:{}", set.syntaxes()[at].name, line)).collect()
    };
    assert_eq!(
        highlight(&syntaxes, "rs", "a\nb", colour),
        Some(
            "<ol class=\"blob-content__lines\"><li class=\"blob-content__line\">Rust:a\
             <li class=\"blob-content__line\">Rust:b</ol>"
                .to_owned()
        )
    );
    assert_eq!(
        highlight(&syntaxes, "nothing", "", colour),
        Some("<ol class=\"blob-content__lines\"></ol>".to_owned())
    );
}

#[test]
fn without_a_syntax_nothing_is_highlighted() {
    let none = SyntaxSet::new();
    let syntaxes = Syntaxes::new(&none);
    let colour = |_at: usize, _text: &str| -> Vec<String> { panic!("nothing to colour") };
    assert_eq!(highlight(&syntaxes, "rs", "fn main() {}", colour), None);
}

#[test]
fn a_block_is_replaced_by_its_highlighting() {
    assert_eq!(
        replacement("rs", Some("<b>x</b>".to_owned())),
        Some("<pre lang=rs><code><b>x</b></pre></code>".to_owned())
    );
    assert_eq!(replacement("rs", None), None);
}

#[test]
fn a_readme_becomes_html() {
    let plain = |_token: &str, _code: &str| -> Option<String> { None };
    let html = render(&options(), "# Demo\n\nSee https://example.org.\n", plain).unwrap();
    assert!(html.contains("<h1"));
    assert!(html.contains("Demo"));
    assert!(html.contains("<a href=\"https://example.org\">"));
    assert_eq!(render(&options(), "", plain), Some(String::new()));
}

#[test]
fn code_in_a_readme_is_replaced_by_its_highlighting() {
    // These options do not let HTML through, so what replaced the block
    // shows as an omission where the code stood.
    let asked = std::cell::RefCell::new(Vec::new());
    let shout = |token: &str, code: &str| -> Option<String> {
        asked.borrow_mut().push((token.to_owned(), code.to_owned()));
        Some(code.to_uppercase())
    };
    let text = "intro\n\n```rs\nfn main() {}\n```\n";
    let html = render(&options(), text, shout).unwrap();
    assert!(html.contains("<p>intro</p>"));
    assert!(html.contains("<!-- raw HTML omitted -->"));
    assert!(!html.contains("fn main() {}"));
    assert_eq!(asked.into_inner(), vec![("rs".to_owned(), "fn main() {}\n".to_owned())]);
}

#[test]
fn code_that_cannot_be_highlighted_is_left_alone() {
    let none = |_token: &str, _code: &str| -> Option<String> { None };
    let text = "```rs\nfn main() {}\n```\n";
    let html = render(&options(), text, none).unwrap();
    assert!(html.contains("fn main() {}"));
    assert!(html.contains("language-rs"));
}

#[test]
fn code_marked_as_text_is_left_alone() {
    let never = |_token: &str, _code: &str| -> Option<String> { panic!("not to be asked") };
    let text = "```text\nfn main() {}\n```\n";
    let html = render(&options(), text, never).unwrap();
    assert!(!html.contains("<!-- raw HTML omitted -->"));
    assert!(html.contains("fn main() {}"));
    assert!(html.contains("language-text"));
}

#[test]
fn a_set_with_a_broken_first_line_pattern_is_not_searched_by_first_line() {
    let broken = "name: Broken\nfile_extensions: [brk]\nscope: source.brk\n\
                  first_line_match: '(unclosed'\ncontexts:\n  main: []\n";
    let mut builder = SyntaxSetBuilder::new();
    builder.add(SyntaxDefinition::load_from_str(broken, true, None).unwrap());
    builder.add_plain_text_syntax();
    let set = builder.build();
    assert_eq!(name_of(&set, "brk", ""), named("Broken"));
    assert_eq!(name_of(&set, "other", "(unclosed\n"), named("Plain Text"));
    assert_eq!(name_of(&set, "other", ""), named("Plain Text"));
}

#[test]
fn a_set_with_sound_first_line_patterns_is_searched_by_first_line() {
    let sound = "name: Sound\nfile_extensions: [snd]\nscope: source.snd\n\
                 first_line_match: '^#!sound'\ncontexts:\n  main: []\n";
    let mut builder = SyntaxSetBuilder::new();
    builder.add(SyntaxDefinition::load_from_str(sound, true, None).unwrap());
    builder.add_plain_text_syntax();
    let set = builder.build();
    assert_eq!(name_of(&set, "other", "#!sound\nrest\n"), named("Sound"));
    assert_eq!(name_of(&set, "other", "#!sound\r\nrest\n"), named("Sound"));
    assert_eq!(name_of(&set, "other", "rest\n#!sound\n"), named("Plain Text"));
}
