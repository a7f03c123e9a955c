//! Syntax highlighting of file content.
//!
//! Which syntax a text is read in, and how its coloured lines are put
//! together, is decided here. The syntaxes are syntect's; colouring itself
//! is left to the caller, who hands it in as a function.

use syntect::parsing::SyntaxSet;
use vstd::prelude::*;
use vstd::string::*;
use crate::repository::{opt_str, string_views};

verus! {

#[verifier::external_type_specification]
#[verifier::external_body]
pub struct ExSyntaxSet(SyntaxSet);

/// The names of the syntaxes that a set holds, in the order in which it
/// holds them.
pub uninterp spec fn syntax_names(syntaxes: SyntaxSet) -> Seq<Seq<char>>;

/// For each token, extension or name, by which a set finds one of its
/// syntaxes, the place of that syntax in the set.
pub uninterp spec fn token_places(syntaxes: SyntaxSet) -> Map<Seq<char>, int>;

/// For each first line by which a set finds one of its syntaxes, the
/// place of that syntax in the set.
pub uninterp spec fn first_line_places(syntaxes: SyntaxSet) -> Map<Seq<char>, int>;

/// For each syntax of a set, in the order in which it holds them,
/// whether its first-line pattern compiles; `None` for a syntax without
/// such a pattern.
pub uninterp spec fn first_line_tests(syntaxes: SyntaxSet) -> Seq<Option<bool>>;

/// Whether every first-line pattern of a set's syntaxes compiles, so that
/// the set can be searched by first line.
pub open spec fn first_lines_compile(syntaxes: SyntaxSet) -> bool {
    forall|at: int|
        0 <= at < first_line_tests(syntaxes).len() ==> #[trigger] first_line_tests(syntaxes)[at]
            != Some(false)
}

/// The place a lookup came to, as a number.
pub open spec fn place(found: Option<usize>) -> Option<int> {
    match found {
        Some(at) => Some(at as int),
        None => None,
    }
}

/// What a map holds under a key, if it holds anything.
pub open spec fn looked_up(places: Map<Seq<char>, int>, key: Seq<char>) -> Option<int> {
    if places.contains_key(key) {
        Some(places[key])
    } else {
        None
    }
}

/// The last place at which a name stands among names.
pub open spec fn last_named(names: Seq<Seq<char>>, name: Seq<char>) -> Option<int>
    decreases names.len(),
{
    if names.len() == 0 {
        None
    } else if names.last() == name {
        Some(names.len() - 1)
    } else {
        last_named(names.drop_last(), name)
    }
}

/// `SyntaxSet::find_syntax_by_token`: the place in the set of the syntax
/// that goes by an extension or a name. It depends on the set and the
/// token alone, and is a place of the set.
#[verifier::external_body]
fn by_token(syntaxes: &SyntaxSet, token: &str) -> (r: Option<usize>)
    ensures
        place(r) == looked_up(token_places(*syntaxes), token@),
        r matches Some(at) ==> at < syntax_names(*syntaxes).len(),
{
    let found = syntaxes.find_syntax_by_token(token)?;
    syntaxes.syntaxes().iter().position(|syntax| std::ptr::eq(syntax, found))
}

/// `SyntaxSet::find_syntax_by_first_line`: the place in the set of the
/// syntax that a first line gives away. It depends on the set and the line
/// alone, and is a place of the set. The search compiles the set's
/// first-line patterns, so they must compile.
#[verifier::external_body]
fn by_first_line(syntaxes: &SyntaxSet, line: &str) -> (r: Option<usize>)
    requires
        first_lines_compile(*syntaxes),
    ensures
        place(r) == looked_up(first_line_places(*syntaxes), line@),
        r matches Some(at) ==> at < syntax_names(*syntaxes).len(),
{
    let found = syntaxes.find_syntax_by_first_line(line)?;
    syntaxes.syntaxes().iter().position(|syntax| std::ptr::eq(syntax, found))
}

/// `SyntaxSet::find_syntax_by_name` for `Plain Text`: the place of the
/// syntax of text that is in no language, which is the last of that name
/// in the set.
#[verifier::external_body]
fn plain_text(syntaxes: &SyntaxSet) -> (r: Option<usize>)
    ensures
        place(r) == last_named(syntax_names(*syntaxes), "Plain Text"@),
        r matches Some(at) ==> at < syntax_names(*syntaxes).len(),
{
    let found = syntaxes.find_syntax_by_name("Plain Text")?;
    syntaxes.syntaxes().iter().position(|syntax| std::ptr::eq(syntax, found))
}

/// `SyntaxSet::syntaxes` and its length: how many syntaxes the set holds.
#[verifier::external_body]
fn syntax_count(syntaxes: &SyntaxSet) -> (r: usize)
    ensures
        r == syntax_names(*syntaxes).len(),
        r == first_line_tests(*syntaxes).len(),
{
    syntaxes.syntaxes().len()
}

/// `syntect::parsing::Regex::try_compile` on the first-line pattern of the
/// syntax at a place: whether the pattern compiles, or `None` where the
/// syntax has no such pattern.
#[verifier::external_body]
fn test_first_line(syntaxes: &SyntaxSet, at: usize) -> (r: Option<bool>)
    requires
        at < first_line_tests(*syntaxes).len(),
    ensures
        r == first_line_tests(*syntaxes)[at as int],
{
    syntaxes.syntaxes()[at].first_line_match.as_deref().map(
        |pattern| syntect::parsing::Regex::try_compile(pattern).is_none(),
    )
}

/// Where a line break first stands in a text, or the length of the text
/// where it has none.
pub open spec fn first_break(text: Seq<char>) -> int
    decreases text.len(),
{
    if text.len() == 0 || text[0] == '\n' {
        0
    } else {
        1 + first_break(text.drop_first())
    }
}

/// The first line of a text: what stands before its first line break,
/// without a carriage return that goes with the break; `None` for an empty
/// text.
pub open spec fn first_line_of(text: Seq<char>) -> Option<Seq<char>> {
    if text.len() == 0 {
        None
    } else {
        let cut = first_break(text);
        let line = text.subrange(0, cut);
        if cut < text.len() && line.len() > 0 && line.last() == '\r' {
            Some(line.drop_last())
        } else {
            Some(line)
        }
    }
}

/// Trusted: `str::lines` of std and the first item it gives, which is
/// the text up to the first line feed, without the line feed and without
/// a carriage return before it.
#[verifier::external_body]
fn first_line(text: &str) -> (r: Option<&str>)
    ensures
        opt_str(r) == first_line_of(text@),
{
    text.lines().next()
}

/// A set of syntaxes, looked over once: it knows whether it can be
/// searched by first line.
pub struct Syntaxes<'a> {
    set: &'a SyntaxSet,
    first_lines: bool,
}

impl<'a> Syntaxes<'a> {
    #[verifier::type_invariant]
    spec fn sound(self) -> bool {
        self.first_lines ==> first_lines_compile(*self.set)
    }

    /// The set that was looked over.
    pub closed spec fn set(self) -> SyntaxSet {
        *self.set
    }

    /// Whether the set is searched by first line.
    pub closed spec fn reads_first_lines(self) -> bool {
        self.first_lines
    }

    /// Looks a set of syntaxes over. A set with a first-line pattern that
    /// does not compile is not searched by first line.
    pub fn new(set: &'a SyntaxSet) -> (r: Syntaxes<'a>)
        ensures
            r.set() == *set,
            r.reads_first_lines() == first_lines_compile(*set),
    {
        let count = syntax_count(set);
        let mut at: usize = 0;
        while at < count
            invariant
                at <= count,
                count == first_line_tests(*set).len(),
                forall|k: int| 0 <= k < at ==> #[trigger] first_line_tests(*set)[k] != Some(false),
            decreases count - at,
        {
            match test_first_line(set, at) {
                Some(compiles) => {
                    if !compiles {
                        return Syntaxes { set, first_lines: false };
                    }
                },
                None => {},
            }
            at += 1;
        }
        Syntaxes { set, first_lines: true }
    }
}

/// The line that gives a text's syntax away: its first, or an empty line
/// where it has none.
pub open spec fn telling_line(text: Seq<char>) -> Seq<char> {
    match first_line_of(text) {
        Some(line) => line,
        None => Seq::empty(),
    }
}

/// The place of the syntax to read a text in.
///
/// The token, which is the file's extension or a language's name, decides
/// if a syntax goes by it; else the token without its first character;
/// else, where the set is searched by first line, the first line of the
/// text; else the text is plain text, if the set has a syntax for that.
pub open spec fn chosen_syntax(
    names: Seq<Seq<char>>,
    tokens: Map<Seq<char>, int>,
    first_lines: Map<Seq<char>, int>,
    reads_first_lines: bool,
    token: Seq<char>,
    text: Seq<char>,
) -> Option<int> {
    if tokens.contains_key(token) {
        Some(tokens[token])
    } else if token.len() > 1 && tokens.contains_key(token.subrange(1, token.len() as int)) {
        Some(tokens[token.subrange(1, token.len() as int)])
    } else if reads_first_lines && first_lines.contains_key(telling_line(text)) {
        Some(first_lines[telling_line(text)])
    } else {
        last_named(names, "Plain Text"@)
    }
}

impl<'a> Syntaxes<'a> {
    /// The place of the syntax that these syntaxes choose for a text.
    pub open spec fn chosen(self, token: Seq<char>, text: Seq<char>) -> Option<int> {
        chosen_syntax(
            syntax_names(self.set()),
            token_places(self.set()),
            first_line_places(self.set()),
            self.reads_first_lines(),
            token,
            text,
        )
    }
}

/// Finds the syntax to read a file in: its place in the set.
///
/// `None` only where nothing goes by the token or the first line and the
/// syntaxes hold none for plain text.
pub fn get_syntax(syntaxes: &Syntaxes<'_>, token: &str, string: &str) -> (r: Option<usize>)
    ensures
        place(r) == syntaxes.chosen(token@, string@),
        r matches Some(at) ==> at < syntax_names(syntaxes.set()).len(),
{
    proof {
        use_type_invariant(syntaxes);
    }
    match by_token(syntaxes.set, token) {
        Some(at) => {
            return Some(at);
        },
        None => {},
    }
    let length = token.unicode_len();
    if length > 1 {
        match by_token(syntaxes.set, token.substring_char(1, length)) {
            Some(at) => {
                return Some(at);
            },
            None => {},
        }
    }
    if syntaxes.first_lines {
        let empty = "";
        proof {
            reveal_strlit("");
            assert(empty@ =~= Seq::<char>::empty());
        }
        let first = match first_line(string) {
            Some(line) => line,
            None => empty,
        };
        match by_first_line(syntaxes.set, first) {
            Some(at) => {
                return Some(at);
            },
            None => {},
        }
    }
    plain_text(syntaxes.set)
}

/// What opens a highlighted text.
pub open spec fn opening() -> Seq<char> {
    "<ol class=\"blob-content__lines\">"@
}

/// What opens each line of a highlighted text.
pub open spec fn line_opening() -> Seq<char> {
    "<li class=\"blob-content__line\">"@
}

/// What closes a highlighted text.
pub open spec fn closing() -> Seq<char> {
    "</ol>"@
}

/// The lines of a highlighted text, each opened as a line and followed by
/// what the colouring made of it.
pub open spec fn framed_lines(pieces: Seq<Seq<char>>) -> Seq<char>
    decreases pieces.len(),
{
    if pieces.len() == 0 {
        Seq::empty()
    } else {
        framed_lines(pieces.drop_last()) + line_opening() + pieces.last()
    }
}

/// A highlighted text: a list with one item for each coloured line.
pub open spec fn framed(pieces: Seq<Seq<char>>) -> Seq<char> {
    opening() + framed_lines(pieces) + closing()
}

/// Puts coloured lines together: a list with one item for each.
pub fn frame(pieces: &Vec<String>) -> (html: String)
    ensures
        html@ == framed(string_views(pieces@)),
{
    let mut output = "<ol class=\"blob-content__lines\">".to_owned();
    let mut i: usize = 0;
    while i < pieces.len()
        invariant
            i <= pieces@.len(),
            output@ == opening() + framed_lines(string_views(pieces@).subrange(0, i as int)),
        decreases pieces@.len() - i,
    {
        let ghost before = string_views(pieces@).subrange(0, i as int);
        let ghost after = string_views(pieces@).subrange(0, i + 1);
        proof {
            assert(after.drop_last() =~= before);
            assert(after.last() == pieces@[i as int]@);
        }
        output.append("<li class=\"blob-content__line\">");
        output.append(pieces[i].as_str());
        proof {
            assert(output@ =~= opening() + framed_lines(after));
        }
        i += 1;
    }
    proof {
        assert(string_views(pieces@).subrange(0, pieces@.len() as int) =~= string_views(pieces@));
    }
    output.append("</ol>");
    output
}

/// Highlights a text: one list item for each of its lines.
///
/// The syntax is chosen as [`get_syntax`] says; `colour` is asked once,
/// with the place of that syntax and the text, for the coloured lines, and
/// what it gives is put together as [`frame`] says. `None` where no syntax
/// is found for the text, not even that of plain text; then `colour` is
/// not asked.
pub fn highlight<F: Fn(usize, &str) -> Vec<String>>(
    syntaxes: &Syntaxes<'_>,
    token: &str,
    string: &str,
    colour: F,
) -> (r: Option<String>)
    requires
        forall|at: usize| call_requires(colour, (at, string)),
    ensures
        r is Some <==> syntaxes.chosen(token@, string@) is Some,
        r matches Some(html) ==> exists|at: usize, pieces: Vec<String>|
            {
                &&& Some(at as int) == syntaxes.chosen(token@, string@)
                &&& #[trigger] call_ensures(colour, (at, string), pieces)
                &&& html@ == framed(string_views(pieces@))
            },
{
    let at = match get_syntax(syntaxes, token, string) {
        Some(at) => at,
        None => {
            return None;
        },
    };
    let pieces = colour(at, string);
    Some(frame(&pieces))
}

} // verus!
